use chip8::cpu::{add_with_carry, sub_with_borrow, MachineError, Step, Tone, CPU, PROG_START, ROM_SIZE};
use chip8::display::FONT_CHARS;

fn machine_with(program: &[u8]) -> CPU {
    let mut cpu = CPU::new();
    cpu.load_cartridge(program);
    cpu
}

fn lit_count(cpu: &mut CPU) -> usize {
    let mut n = 0;
    for y in 0..32 {
        for x in 0..64 {
            if cpu.display.get_pixel(x, y) {
                n += 1;
            }
        }
    }
    n
}

#[test]
fn new_machine_is_all_zero() {
    let cpu = CPU::new();
    assert_eq!(cpu.pc, 0);
    assert_eq!(cpu.i, 0);
    assert_eq!(cpu.sp, 0);
    assert_eq!(cpu.dt, 0);
    assert_eq!(cpu.st, 0);
    assert!(cpu.ram.iter().all(|&b| b == 0));
    assert!(cpu.v.iter().all(|&b| b == 0));
    assert!(cpu.stack.iter().all(|&a| a == 0));
    assert!(cpu.keypad.keys.iter().all(|&k| !k));
}

#[test]
fn reset_installs_the_font_and_clears_the_rest() {
    let mut cpu = machine_with(&[0x12, 0x34, 0x56]);
    cpu.v[3] = 9;
    cpu.i = 0x345;
    cpu.stack[0] = 0x222;
    cpu.sp = 1;
    cpu.dt = 4;
    cpu.st = 5;
    cpu.display.set_pixel(1, 1, true);
    cpu.keypad.key_press(2);
    cpu.reset();
    assert_eq!(&cpu.ram[0..80], &FONT_CHARS[..]);
    assert!(cpu.ram[80..].iter().all(|&b| b == 0));
    assert!(cpu.ram[0x200..].iter().all(|&b| b == 0));
    assert_eq!(cpu.pc, PROG_START);
    assert_eq!(cpu.pc, 0x200);
    assert_eq!(cpu.i, 0);
    assert_eq!(cpu.sp, 0);
    assert_eq!(cpu.dt, 0);
    assert_eq!(cpu.st, 0);
    assert!(cpu.v.iter().all(|&b| b == 0));
    assert!(cpu.stack.iter().all(|&a| a == 0));
    assert_eq!(lit_count(&mut cpu), 0);
    assert!(cpu.keypad.is_key_pressed(2));
}

#[test]
fn load_cartridge_copies_the_image_to_the_origin() {
    let cpu = machine_with(&[0xDE, 0xAD, 0xBE, 0xEF]);
    assert_eq!(&cpu.ram[0..80], &FONT_CHARS[..]);
    assert!(cpu.ram[80..0x200].iter().all(|&b| b == 0));
    assert_eq!(&cpu.ram[0x200..0x204], &[0xDE, 0xAD, 0xBE, 0xEF]);
    assert!(cpu.ram[0x204..].iter().all(|&b| b == 0));
    assert_eq!(cpu.pc, 0x200);
}

#[test]
fn load_cartridge_takes_the_largest_image() {
    let rom = vec![0xA5u8; ROM_SIZE];
    let cpu = machine_with(&rom);
    assert_eq!(ROM_SIZE, 3584);
    assert!(cpu.ram[0x200..].iter().all(|&b| b == 0xA5));
    assert_eq!(cpu.ram[0x1FF], 0);
}

#[test]
fn load_then_add_program() {
    let mut cpu = machine_with(&[0x6A, 0x05, 0x7A, 0x03]);
    assert_eq!(cpu.tick(), Ok(Step::Ran));
    assert_eq!(cpu.v[0xA], 5);
    assert_eq!(cpu.tick(), Ok(Step::Ran));
    assert_eq!(cpu.v[0xA], 8);
    assert_eq!(cpu.pc, PROG_START + 4);
}

#[test]
fn add_byte_wraps_without_touching_the_flag() {
    let mut cpu = machine_with(&[0x61, 0xFF, 0x71, 0x02]);
    cpu.v[0xF] = 7;
    cpu.tick().unwrap();
    cpu.tick().unwrap();
    assert_eq!(cpu.v[1], 1);
    assert_eq!(cpu.v[0xF], 7);
}

#[test]
fn call_then_return_comes_back_after_the_call() {
    // 0x200: call 0x206; 0x202: load v1, 1; 0x206: return
    let mut cpu = machine_with(&[0x22, 0x06, 0x61, 0x01, 0x00, 0x00, 0x00, 0xEE]);
    assert_eq!(cpu.tick(), Ok(Step::Ran));
    assert_eq!(cpu.pc, 0x206);
    assert_eq!(cpu.sp, 1);
    assert_eq!(cpu.stack[0], 0x202);
    assert_eq!(cpu.tick(), Ok(Step::Ran));
    assert_eq!(cpu.pc, 0x202);
    assert_eq!(cpu.sp, 0);
    assert_eq!(cpu.tick(), Ok(Step::Ran));
    assert_eq!(cpu.v[1], 1);
}

#[test]
fn wait_for_key_holds_until_a_key_is_pressed() {
    let mut cpu = machine_with(&[0xF3, 0x0A, 0x63, 0x00]);
    for _ in 0..5 {
        assert_eq!(cpu.tick(), Ok(Step::Waiting));
        assert_eq!(cpu.pc, 0x200);
        assert_eq!(cpu.v[3], 0);
    }
    cpu.keypad.key_press(0xB);
    cpu.keypad.key_press(0x7);
    assert_eq!(cpu.tick(), Ok(Step::Ran));
    assert_eq!(cpu.pc, 0x202);
    assert_eq!(cpu.v[3], 0x7);
}

#[test]
fn store_digits_examples() {
    for (value, digits) in [(0u8, [0u8, 0, 0]), (255, [2, 5, 5]), (7, [0, 0, 7]), (120, [1, 2, 0])] {
        let mut cpu = machine_with(&[0xF4, 0x33]);
        cpu.v[4] = value;
        cpu.i = 0x300;
        assert_eq!(cpu.tick(), Ok(Step::Ran));
        assert_eq!(&cpu.ram[0x300..0x303], &digits);
        assert_eq!(cpu.i, 0x300);
        assert_eq!(cpu.pc, 0x202);
    }
}

#[test]
fn store_digits_outside_memory_is_an_address_error() {
    let mut cpu = machine_with(&[0xF4, 0x33]);
    cpu.v[4] = 123;
    cpu.i = 4094;
    assert_eq!(cpu.tick(), Err(MachineError::AddressError));
    assert_eq!(cpu.pc, 0x200);
    assert_eq!(cpu.ram[4094], 0);
    assert_eq!(cpu.ram[4095], 0);
    cpu.i = 4093;
    assert_eq!(cpu.tick(), Ok(Step::Ran));
    assert_eq!(&cpu.ram[4093..4096], &[1, 2, 3]);
}

#[test]
fn register_add_sets_the_carry() {
    for (a, b, sum, flag) in [(1u8, 2u8, 3u8, 0u8), (255, 1, 0, 1), (200, 100, 44, 1), (255, 0, 255, 0), (255, 255, 254, 1)]
    {
        let mut cpu = machine_with(&[0x81, 0x24]);
        cpu.v[1] = a;
        cpu.v[2] = b;
        cpu.tick().unwrap();
        assert_eq!(cpu.v[1], sum);
        assert_eq!(cpu.v[2], b);
        assert_eq!(cpu.v[0xF], flag);
    }
}

#[test]
fn register_add_for_every_pair() {
    for a in 0u16..256 {
        for b in 0u16..256 {
            let mut cpu = machine_with(&[0x81, 0x24]);
            cpu.v[1] = a as u8;
            cpu.v[2] = b as u8;
            cpu.tick_with(0).unwrap();
            assert_eq!(cpu.v[1] as u16, (a + b) % 256);
            assert_eq!(cpu.v[0xF] == 1, a + b > 255);
            assert!(cpu.v[0xF] <= 1);
        }
    }
}

#[test]
fn register_subtract_sets_no_borrow() {
    for (a, b, diff, flag) in [(5u8, 3u8, 2u8, 1u8), (3, 5, 254, 0), (7, 7, 0, 1), (0, 255, 1, 0)] {
        let mut cpu = machine_with(&[0x81, 0x25]);
        cpu.v[1] = a;
        cpu.v[2] = b;
        cpu.tick().unwrap();
        assert_eq!(cpu.v[1], diff);
        assert_eq!(cpu.v[0xF], flag);
    }
}

#[test]
fn register_subtract_for_every_pair() {
    for a in 0i32..256 {
        for b in 0i32..256 {
            let mut cpu = machine_with(&[0x81, 0x25, 0x83, 0x47]);
            cpu.v[1] = a as u8;
            cpu.v[2] = b as u8;
            cpu.v[3] = a as u8;
            cpu.v[4] = b as u8;
            cpu.tick_with(0).unwrap();
            assert_eq!(cpu.v[1] as i32, (a - b).rem_euclid(256));
            assert_eq!(cpu.v[0xF] == 1, a >= b);
            cpu.tick_with(0).unwrap();
            assert_eq!(cpu.v[3] as i32, (b - a).rem_euclid(256));
            assert_eq!(cpu.v[0xF] == 1, b >= a);
        }
    }
}

#[test]
fn reverse_subtract_swaps_the_operands() {
    for (a, b, diff, flag) in [(3u8, 5u8, 2u8, 1u8), (5, 3, 254, 0), (9, 9, 0, 1)] {
        let mut cpu = machine_with(&[0x81, 0x27]);
        cpu.v[1] = a;
        cpu.v[2] = b;
        cpu.tick().unwrap();
        assert_eq!(cpu.v[1], diff);
        assert_eq!(cpu.v[0xF], flag);
    }
}

#[test]
fn shifts_put_the_lost_bit_in_the_flag() {
    for a in 0u16..256 {
        let mut cpu = machine_with(&[0x81, 0x26, 0x83, 0x4E]);
        cpu.v[1] = a as u8;
        cpu.v[3] = a as u8;
        cpu.tick().unwrap();
        assert_eq!(cpu.v[1] as u16, a >> 1);
        assert_eq!(cpu.v[0xF] as u16, a & 1);
        cpu.tick().unwrap();
        assert_eq!(cpu.v[3] as u16, (a << 1) & 0xFF);
        assert_eq!(cpu.v[0xF] as u16, a >> 7);
    }
}

#[test]
fn flag_register_as_destination_keeps_the_result() {
    let mut cpu = machine_with(&[0x8F, 0x14, 0x8F, 0x15, 0x8F, 0x06, 0x8F, 0x0E]);
    cpu.v[0xF] = 200;
    cpu.v[1] = 100;
    cpu.tick().unwrap();
    assert_eq!(cpu.v[0xF], 44);
    cpu.tick().unwrap();
    assert_eq!(cpu.v[0xF], 200);
    // The flag is written first, and the shift then works on the flag.
    cpu.v[0xF] = 0xFF;
    cpu.tick().unwrap();
    assert_eq!(cpu.v[0xF], 0);
    cpu.v[0xF] = 0xFF;
    cpu.tick().unwrap();
    assert_eq!(cpu.v[0xF], 2);
}

#[test]
fn bitwise_operations_and_move() {
    let mut cpu = machine_with(&[0x81, 0x21, 0x83, 0x22, 0x84, 0x23, 0x85, 0x20]);
    cpu.v[1] = 0b1100;
    cpu.v[2] = 0b1010;
    cpu.v[3] = 0b1100;
    cpu.v[4] = 0b1100;
    cpu.v[0xF] = 9;
    for _ in 0..4 {
        assert_eq!(cpu.tick(), Ok(Step::Ran));
    }
    assert_eq!(cpu.v[1], 0b1110);
    assert_eq!(cpu.v[3], 0b1000);
    assert_eq!(cpu.v[4], 0b0110);
    assert_eq!(cpu.v[5], 0b1010);
    assert_eq!(cpu.v[0xF], 9);
    assert_eq!(cpu.pc, 0x208);
}

#[test]
fn skips_add_one_instruction_width() {
    // skip-if-equal v1, 0x11 taken; then not taken
    let mut cpu = machine_with(&[0x31, 0x11, 0x00, 0x00, 0x31, 0x12, 0x41, 0x11, 0x41, 0x12]);
    cpu.v[1] = 0x11;
    cpu.tick().unwrap();
    assert_eq!(cpu.pc, 0x204);
    cpu.tick().unwrap();
    assert_eq!(cpu.pc, 0x206);
    cpu.tick().unwrap();
    assert_eq!(cpu.pc, 0x208);
    cpu.tick().unwrap();
    assert_eq!(cpu.pc, 0x20C);
}

#[test]
fn register_skips_compare_two_registers() {
    let mut cpu = machine_with(&[0x51, 0x20, 0x91, 0x20, 0x00, 0x00, 0x51, 0x30, 0x00, 0x00, 0x91, 0x30]);
    cpu.v[1] = 4;
    cpu.v[2] = 5;
    cpu.v[3] = 4;
    cpu.tick().unwrap();
    assert_eq!(cpu.pc, 0x202);
    cpu.tick().unwrap();
    assert_eq!(cpu.pc, 0x206);
    cpu.tick().unwrap();
    assert_eq!(cpu.pc, 0x20A);
    cpu.tick().unwrap();
    assert_eq!(cpu.pc, 0x20C);
}

#[test]
fn key_skips_query_the_keypad() {
    let mut cpu = machine_with(&[0xE1, 0x9E, 0xE1, 0xA1, 0x00, 0x00, 0xE1, 0x9E, 0x00, 0x00, 0xE1, 0xA1]);
    cpu.v[1] = 0xC;
    cpu.tick().unwrap();
    assert_eq!(cpu.pc, 0x202);
    cpu.tick().unwrap();
    assert_eq!(cpu.pc, 0x206);
    cpu.keypad.key_press(0xC);
    cpu.tick().unwrap();
    assert_eq!(cpu.pc, 0x20A);
    cpu.tick().unwrap();
    assert_eq!(cpu.pc, 0x20C);
}

#[test]
fn key_code_above_fifteen_is_a_key_error() {
    let mut cpu = machine_with(&[0xE1, 0x9E, 0xE1, 0xA1]);
    cpu.v[1] = 16;
    assert_eq!(cpu.tick(), Err(MachineError::KeyError));
    assert_eq!(cpu.pc, 0x200);
    cpu.pc = 0x202;
    assert_eq!(cpu.tick(), Err(MachineError::KeyError));
    assert_eq!(cpu.pc, 0x202);
}

#[test]
fn jump_and_indexed_jump() {
    let mut cpu = machine_with(&[0x13, 0x00]);
    cpu.ram[0x300] = 0xB4;
    cpu.ram[0x301] = 0x00;
    cpu.v[0] = 0x10;
    cpu.tick().unwrap();
    assert_eq!(cpu.pc, 0x300);
    cpu.tick().unwrap();
    assert_eq!(cpu.pc, 0x410);
}

#[test]
fn index_register_instructions() {
    let mut cpu = machine_with(&[0xA1, 0x23, 0xF1, 0x1E, 0xF2, 0x29, 0xF3, 0x29]);
    cpu.v[1] = 0x10;
    cpu.v[2] = 0xA;
    cpu.v[3] = 0x1B;
    cpu.tick().unwrap();
    assert_eq!(cpu.i, 0x123);
    cpu.tick().unwrap();
    assert_eq!(cpu.i, 0x133);
    cpu.tick().unwrap();
    assert_eq!(cpu.i, 50);
    // Only the low nibble names the glyph.
    cpu.tick().unwrap();
    assert_eq!(cpu.i, 55);
}

#[test]
fn add_to_index_wraps_at_sixteen_bits() {
    let mut cpu = machine_with(&[0xF1, 0x1E]);
    cpu.i = 0xFFFF;
    cpu.v[1] = 2;
    cpu.v[0xF] = 3;
    assert_eq!(cpu.tick(), Ok(Step::Ran));
    assert_eq!(cpu.i, 1);
    assert_eq!(cpu.v[0xF], 3);
}

#[test]
fn timers_are_set_read_and_counted_down() {
    let mut cpu = machine_with(&[0xF1, 0x15, 0xF2, 0x18, 0xF3, 0x07]);
    cpu.v[1] = 2;
    cpu.v[2] = 1;
    cpu.tick().unwrap();
    cpu.tick().unwrap();
    assert_eq!((cpu.dt, cpu.st), (2, 1));
    cpu.tick_timers();
    assert_eq!((cpu.dt, cpu.st), (1, 0));
    cpu.tick().unwrap();
    assert_eq!(cpu.v[3], 1);
    assert_eq!((cpu.dt, cpu.st), (1, 0));
    cpu.tick_timers();
    assert_eq!((cpu.dt, cpu.st), (0, 0));
    cpu.tick_timers();
    assert_eq!((cpu.dt, cpu.st), (0, 0));
    assert_eq!(cpu.pc, 0x206);
}

#[test]
fn store_and_load_registers_are_inclusive() {
    let mut cpu = machine_with(&[0xF2, 0x55, 0xF2, 0x65]);
    cpu.v[0] = 10;
    cpu.v[1] = 11;
    cpu.v[2] = 12;
    cpu.v[3] = 13;
    cpu.i = 0x400;
    cpu.tick().unwrap();
    assert_eq!(&cpu.ram[0x400..0x404], &[10, 11, 12, 0]);
    assert_eq!(cpu.i, 0x400);
    cpu.v = [0xFF; 16];
    cpu.tick().unwrap();
    assert_eq!(&cpu.v[0..4], &[10, 11, 12, 0xFF]);
    assert_eq!(cpu.pc, 0x204);
}

#[test]
fn register_transfer_outside_memory_is_an_address_error() {
    let mut cpu = machine_with(&[0xF2, 0x55, 0xF2, 0x65]);
    cpu.i = 4094;
    cpu.v[0] = 1;
    assert_eq!(cpu.tick(), Err(MachineError::AddressError));
    assert_eq!(cpu.ram[4094], 0);
    assert_eq!(cpu.pc, 0x200);
    cpu.pc = 0x202;
    assert_eq!(cpu.tick(), Err(MachineError::AddressError));
    assert_eq!(cpu.v[0], 1);
    cpu.i = 4093;
    cpu.ram[4095] = 9;
    assert_eq!(cpu.tick(), Ok(Step::Ran));
    assert_eq!(cpu.v[2], 9);
}

#[test]
fn draw_instruction_sets_the_collision_flag() {
    // v0 = 0 selects glyph 0; draw it twice at (v1, v2).
    let mut cpu = machine_with(&[0xF0, 0x29, 0xD1, 0x25, 0xD1, 0x25]);
    cpu.v[1] = 62;
    cpu.v[2] = 30;
    cpu.v[0xF] = 5;
    cpu.tick().unwrap();
    assert_eq!(cpu.tick(), Ok(Step::Ran));
    assert_eq!(cpu.v[0xF], 0);
    assert_eq!(lit_count(&mut cpu), 14);
    assert!(cpu.display.get_pixel(62, 30));
    assert!(cpu.display.get_pixel(1, 30));
    assert!(cpu.display.get_pixel(62, 2));
    assert!(!cpu.display.get_pixel(63, 31));
    assert_eq!(cpu.tick(), Ok(Step::Ran));
    assert_eq!(cpu.v[0xF], 1);
    assert_eq!(lit_count(&mut cpu), 0);
    assert_eq!(cpu.pc, 0x206);
}

#[test]
fn draw_outside_memory_is_an_address_error() {
    let mut cpu = machine_with(&[0xD1, 0x25, 0xD1, 0x20]);
    cpu.i = 4092;
    assert_eq!(cpu.tick(), Err(MachineError::AddressError));
    assert_eq!(cpu.pc, 0x200);
    cpu.i = 4091;
    cpu.ram[4095] = 0x80;
    assert_eq!(cpu.tick(), Ok(Step::Ran));
    assert!(cpu.display.get_pixel(0, 4));
    cpu.i = 4096;
    assert_eq!(cpu.tick(), Ok(Step::Ran));
    cpu.pc = 0x202;
    cpu.i = 4097;
    assert_eq!(cpu.tick(), Err(MachineError::AddressError));
}

#[test]
fn clear_screen_instruction() {
    let mut cpu = machine_with(&[0x00, 0xE0]);
    cpu.display.set_pixel(5, 5, true);
    assert_eq!(cpu.tick(), Ok(Step::Ran));
    assert_eq!(lit_count(&mut cpu), 0);
    assert_eq!(cpu.pc, 0x202);
}

#[test]
fn unknown_word_only_advances() {
    let mut cpu = machine_with(&[0x01, 0x23, 0xFF, 0xFF]);
    cpu.v[1] = 3;
    assert_eq!(cpu.tick(), Ok(Step::Unknown(0x0123)));
    assert_eq!(cpu.pc, 0x202);
    assert_eq!(cpu.tick(), Ok(Step::Unknown(0xFFFF)));
    assert_eq!(cpu.pc, 0x204);
    assert_eq!(cpu.v[1], 3);
    assert_eq!(cpu.sp, 0);
    assert_eq!(cpu.i, 0);
}

#[test]
fn return_with_empty_stack_is_a_stack_error() {
    let mut cpu = machine_with(&[0x00, 0xEE]);
    assert_eq!(cpu.tick(), Err(MachineError::StackError));
    assert_eq!(cpu.pc, 0x200);
    assert_eq!(cpu.sp, 0);
    cpu.sp = 17;
    assert_eq!(cpu.tick(), Err(MachineError::StackError));
    assert_eq!(cpu.sp, 17);
}

#[test]
fn seventeenth_call_is_a_stack_error() {
    // A call to itself, over and over.
    let mut cpu = machine_with(&[0x22, 0x00]);
    for depth in 0..16 {
        assert_eq!(cpu.tick(), Ok(Step::Ran));
        assert_eq!(cpu.sp, depth + 1);
        assert_eq!(cpu.stack[depth as usize], 0x202);
    }
    assert_eq!(cpu.tick(), Err(MachineError::StackError));
    assert_eq!(cpu.sp, 16);
    assert_eq!(cpu.pc, 0x200);
}

#[test]
fn fetch_past_the_end_of_memory_is_an_address_error() {
    let mut cpu = machine_with(&[]);
    cpu.pc = 4095;
    assert_eq!(cpu.tick(), Err(MachineError::AddressError));
    assert_eq!(cpu.pc, 4095);
    cpu.pc = 0xFFFF;
    assert_eq!(cpu.tick(), Err(MachineError::AddressError));
    cpu.pc = 4094;
    cpu.ram[4094] = 0x6A;
    cpu.ram[4095] = 0x01;
    assert_eq!(cpu.tick(), Ok(Step::Ran));
    assert_eq!(cpu.v[0xA], 1);
    assert_eq!(cpu.pc, 4096);
    assert_eq!(cpu.tick(), Err(MachineError::AddressError));
}

#[test]
fn random_with_a_given_byte_is_masked() {
    let mut cpu = machine_with(&[0xC1, 0x0F, 0xC2, 0xFF]);
    assert_eq!(cpu.tick_with(0xAB), Ok(Step::Ran));
    assert_eq!(cpu.v[1], 0x0B);
    assert_eq!(cpu.tick_with(0xAB), Ok(Step::Ran));
    assert_eq!(cpu.v[2], 0xAB);
    assert_eq!(cpu.pc, 0x204);
}

#[test]
fn random_from_the_generator_respects_the_mask() {
    let mut seen = [false; 256];
    for _ in 0..2000 {
        let mut cpu = machine_with(&[0xC1, 0x3C, 0xC2, 0xFF]);
        cpu.v[1] = 0xFF;
        assert_eq!(cpu.tick(), Ok(Step::Ran));
        assert_eq!(cpu.v[1] & !0x3C, 0);
        assert_eq!(cpu.tick(), Ok(Step::Ran));
        seen[cpu.v[2] as usize] = true;
        assert_eq!(cpu.pc, 0x204);
    }
    // Two thousand draws that gave under three distinct bytes are no random source.
    assert!(seen.iter().filter(|&&s| s).count() > 2);
}

#[test]
fn tick_with_ignores_the_byte_for_other_instructions() {
    let mut a = machine_with(&[0x6A, 0x05, 0x8A, 0xA4]);
    let mut b = machine_with(&[0x6A, 0x05, 0x8A, 0xA4]);
    for _ in 0..2 {
        assert_eq!(a.tick_with(0x00), b.tick_with(0xFF));
    }
    assert_eq!(a.v, b.v);
    assert_eq!(a.pc, b.pc);
    assert_eq!(a.v[0xA], 10);
}

#[test]
fn tone_follows_the_sound_timer() {
    let mut cpu = CPU::new();
    assert_eq!(cpu.tone(false), Tone::Keep);
    assert_eq!(cpu.tone(true), Tone::End);
    cpu.st = 3;
    assert_eq!(cpu.tone(false), Tone::Begin);
    assert_eq!(cpu.tone(true), Tone::Keep);
}

#[test]
fn add_with_carry_values() {
    assert_eq!(add_with_carry(0, 0), (0, 0));
    assert_eq!(add_with_carry(255, 1), (0, 1));
    assert_eq!(add_with_carry(128, 127), (255, 0));
    assert_eq!(add_with_carry(128, 128), (0, 1));
    assert_eq!(add_with_carry(255, 255), (254, 1));
}

#[test]
fn sub_with_borrow_values() {
    assert_eq!(sub_with_borrow(0, 0), (0, 1));
    assert_eq!(sub_with_borrow(0, 1), (255, 0));
    assert_eq!(sub_with_borrow(10, 3), (7, 1));
    assert_eq!(sub_with_borrow(3, 10), (249, 0));
    assert_eq!(sub_with_borrow(255, 255), (0, 1));
}

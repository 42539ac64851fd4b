use chip8_vm::constants::{CYCLES_PER_FRAME, FONTSET, FONT_START, PROGRAM_START, RAM_SIZE};
use chip8_vm::cpu::CPU;
use chip8_vm::instruction::{decode, Instruction};
use chip8_vm::machine::TickFault;

/// A machine with `program` loaded at the program start.
fn machine_with(program: &[u8]) -> CPU {
    let mut cpu = CPU::new();
    cpu.load_rom(program);
    cpu
}

fn run(cpu: &mut CPU, cycles: usize) {
    for _ in 0..cycles {
        assert_eq!(cpu.check_tick(), Ok(()));
        assert_eq!(cpu.tick(), Ok(()));
    }
}

#[test]
fn new_machine_has_font_and_starts_at_program() {
    let cpu = CPU::new();
    assert_eq!(cpu.pc, 0x200);
    assert_eq!(cpu.sp, 0);
    assert_eq!(cpu.i_reg, 0);
    assert_eq!(&cpu.ram[0x050..0x0A0], &FONTSET[..]);
    assert!(cpu.ram[..0x050].iter().all(|&b| b == 0));
    assert!(cpu.ram[0x0A0..].iter().all(|&b| b == 0));
    assert!(cpu.display.iter().all(|&p| !p));
    assert!(cpu.keys.iter().all(|&k| !k));
    assert_eq!(cpu.v_reg, [0u8; 16]);
    assert_eq!(cpu.stack, [0u16; 16]);
    assert_eq!(cpu.delay_timer, 0);
    assert_eq!(cpu.sound_timer, 0);
}

#[test]
fn load_rom_copies_program_at_0x200() {
    let cpu = machine_with(&[0x12, 0x34, 0x56]);
    assert_eq!(cpu.ram[0x1FF], 0);
    assert_eq!(&cpu.ram[0x200..0x203], &[0x12, 0x34, 0x56]);
    assert_eq!(cpu.ram[0x203], 0);
    assert_eq!(cpu.ram[FONT_START], 0xF0);
}

#[test]
fn load_rom_of_maximal_size_fills_memory() {
    let rom = vec![0xAB; RAM_SIZE - PROGRAM_START];
    let cpu = machine_with(&rom);
    assert!(cpu.ram[0x200..].iter().all(|&b| b == 0xAB));
}

#[test]
fn decode_examples() {
    assert_eq!(decode(0x00E0), Some(Instruction::ClearScreen));
    assert_eq!(decode(0x00EE), Some(Instruction::Return));
    assert_eq!(decode(0x1ABC), Some(Instruction::Jump { addr: 0xABC }));
    assert_eq!(decode(0x8124), Some(Instruction::AddReg { x: 1, y: 2 }));
    assert_eq!(decode(0xD125), Some(Instruction::Draw { x: 1, y: 2, n: 5 }));
    assert_eq!(decode(0xF365), Some(Instruction::LoadRegs { x: 3 }));
    assert_eq!(decode(0x0123), None);
    assert_eq!(decode(0x5121), None);
    assert_eq!(decode(0x8128), None);
    assert_eq!(decode(0xE1FF), None);
    assert_eq!(decode(0xF1FF), None);
}

#[test]
fn set_and_add_immediate_wraps_without_flag() {
    let mut cpu = machine_with(&[0x63, 0xF0, 0x73, 0x20]);
    cpu.v_reg[0xF] = 7;
    run(&mut cpu, 2);
    assert_eq!(cpu.v_reg[3], 0x10);
    assert_eq!(cpu.v_reg[0xF], 7);
    assert_eq!(cpu.pc, 0x204);
}

#[test]
fn add_registers_sets_carry() {
    let mut cpu = machine_with(&[0x81, 0x24, 0x81, 0x24]);
    cpu.v_reg[1] = 200;
    cpu.v_reg[2] = 100;
    run(&mut cpu, 1);
    assert_eq!(cpu.v_reg[1], 44);
    assert_eq!(cpu.v_reg[0xF], 1);
    run(&mut cpu, 1);
    assert_eq!(cpu.v_reg[1], 144);
    assert_eq!(cpu.v_reg[0xF], 0);
}

#[test]
fn subtract_sets_no_borrow_flag() {
    let mut cpu = machine_with(&[0x81, 0x25, 0x83, 0x45]);
    cpu.v_reg[1] = 10;
    cpu.v_reg[2] = 3;
    cpu.v_reg[3] = 3;
    cpu.v_reg[4] = 10;
    run(&mut cpu, 1);
    assert_eq!(cpu.v_reg[1], 7);
    assert_eq!(cpu.v_reg[0xF], 1);
    run(&mut cpu, 1);
    assert_eq!(cpu.v_reg[3], 249);
    assert_eq!(cpu.v_reg[0xF], 0);
}

#[test]
fn reverse_subtract() {
    let mut cpu = machine_with(&[0x81, 0x27]);
    cpu.v_reg[1] = 5;
    cpu.v_reg[2] = 3;
    run(&mut cpu, 1);
    assert_eq!(cpu.v_reg[1], 254);
    assert_eq!(cpu.v_reg[0xF], 0);
}

#[test]
fn shifts_put_lost_bit_in_vf() {
    let mut cpu = machine_with(&[0x81, 0x06, 0x82, 0x0E]);
    cpu.v_reg[1] = 0b1000_0011;
    cpu.v_reg[2] = 0b1100_0001;
    run(&mut cpu, 1);
    assert_eq!(cpu.v_reg[1], 0b0100_0001);
    assert_eq!(cpu.v_reg[0xF], 1);
    run(&mut cpu, 1);
    assert_eq!(cpu.v_reg[2], 0b1000_0010);
    assert_eq!(cpu.v_reg[0xF], 1);
}

#[test]
fn logic_operations() {
    let mut cpu = machine_with(&[0x81, 0x21, 0x83, 0x22, 0x85, 0x63, 0x87, 0x10]);
    cpu.v_reg[1] = 0b1100;
    cpu.v_reg[2] = 0b1010;
    cpu.v_reg[3] = 0b1100;
    cpu.v_reg[4] = 0b1010;
    cpu.v_reg[5] = 0b1100;
    cpu.v_reg[6] = 0b1010;
    run(&mut cpu, 4);
    assert_eq!(cpu.v_reg[1], 0b1110);
    assert_eq!(cpu.v_reg[3], 0b1000);
    assert_eq!(cpu.v_reg[5], 0b0110);
    assert_eq!(cpu.v_reg[7], 0b1110);
}

#[test]
fn skips() {
    // 3XNN taken, 4XNN not taken, 5XY0 taken, 9XY0 not taken.
    let mut cpu = machine_with(&[0x31, 0x05]);
    cpu.v_reg[1] = 5;
    run(&mut cpu, 1);
    assert_eq!(cpu.pc, 0x204);

    let mut cpu = machine_with(&[0x41, 0x05]);
    cpu.v_reg[1] = 5;
    run(&mut cpu, 1);
    assert_eq!(cpu.pc, 0x202);

    let mut cpu = machine_with(&[0x51, 0x20]);
    cpu.v_reg[1] = 9;
    cpu.v_reg[2] = 9;
    run(&mut cpu, 1);
    assert_eq!(cpu.pc, 0x204);

    let mut cpu = machine_with(&[0x91, 0x20]);
    cpu.v_reg[1] = 9;
    cpu.v_reg[2] = 9;
    run(&mut cpu, 1);
    assert_eq!(cpu.pc, 0x202);
}

#[test]
fn jumps() {
    let mut cpu = machine_with(&[0x13, 0x00]);
    run(&mut cpu, 1);
    assert_eq!(cpu.pc, 0x300);

    let mut cpu = machine_with(&[0xB3, 0x00]);
    cpu.v_reg[0] = 0x10;
    run(&mut cpu, 1);
    assert_eq!(cpu.pc, 0x310);
}

#[test]
fn call_then_return_resumes_after_call() {
    let mut program = vec![0u8; 0x102];
    program[0] = 0x23; // call 0x300
    program[1] = 0x00;
    program[0x100] = 0x00; // 0x300: return
    program[0x101] = 0xEE;
    let mut cpu = machine_with(&program);
    run(&mut cpu, 1);
    assert_eq!(cpu.pc, 0x300);
    assert_eq!(cpu.sp, 1);
    assert_eq!(cpu.stack[0], 0x202);
    run(&mut cpu, 1);
    assert_eq!(cpu.pc, 0x202);
    assert_eq!(cpu.sp, 0);
}

#[test]
fn index_register_instructions() {
    let mut cpu = machine_with(&[0xAF, 0xFF, 0xF1, 0x1E, 0xF2, 0x29]);
    cpu.v_reg[1] = 1;
    cpu.v_reg[2] = 0xA;
    run(&mut cpu, 1);
    assert_eq!(cpu.i_reg, 0xFFF);
    run(&mut cpu, 1);
    assert_eq!(cpu.i_reg, 0x1000);
    run(&mut cpu, 1);
    assert_eq!(cpu.i_reg, 0x050 + 50);
    assert_eq!(&cpu.ram[cpu.i_reg as usize..cpu.i_reg as usize + 5], &[0xF0, 0x90, 0xF0, 0x90, 0x90]);
}

#[test]
fn add_index_wraps_at_sixteen_bits() {
    let mut cpu = machine_with(&[0xF1, 0x1E]);
    cpu.i_reg = 0xFFFF;
    cpu.v_reg[1] = 2;
    run(&mut cpu, 1);
    assert_eq!(cpu.i_reg, 1);
}

#[test]
fn random_masks_with_nn() {
    let mut cpu = machine_with(&[0xC1, 0x0F, 0xC2, 0x00]);
    cpu.v_reg[2] = 0x55;
    run(&mut cpu, 2);
    assert!(cpu.v_reg[1] <= 0x0F);
    assert_eq!(cpu.v_reg[2], 0);

    let mut cpu = machine_with(&[0xC1, 0x3C]);
    cpu.tick_with_random(0xFF);
    assert_eq!(cpu.v_reg[1], 0x3C);
}

#[test]
fn draw_font_glyph_and_collision() {
    // I = glyph of 0; draw 5 rows at (V1, V2) = (2, 3); draw again.
    let mut cpu = machine_with(&[0xA0, 0x50, 0xD1, 0x25, 0xD1, 0x25]);
    cpu.v_reg[1] = 2;
    cpu.v_reg[2] = 3;
    run(&mut cpu, 2);
    assert_eq!(cpu.v_reg[0xF], 0);
    // Row 0 of glyph 0 is 0xF0: pixels 2..6 of line 3 lit.
    for col in 0..8 {
        assert_eq!(cpu.display[3 * 64 + 2 + col], col < 4);
    }
    // Row 1 is 0x90.
    assert!(cpu.display[4 * 64 + 2]);
    assert!(!cpu.display[4 * 64 + 3]);
    assert!(cpu.display[4 * 64 + 5]);
    let lit = cpu.display.iter().filter(|&&p| p).count();
    assert_eq!(lit, 4 + 2 + 2 + 2 + 4);
    run(&mut cpu, 1);
    assert_eq!(cpu.v_reg[0xF], 1);
    assert!(cpu.display.iter().all(|&p| !p));
}

#[test]
fn draw_wraps_start_and_clips_edges() {
    let mut cpu = machine_with(&[0xA3, 0x00, 0xD1, 0x22]);
    cpu.ram[0x300] = 0xFF;
    cpu.ram[0x301] = 0xFF;
    cpu.v_reg[1] = 64 + 60; // starts at x = 60
    cpu.v_reg[2] = 31;
    run(&mut cpu, 2);
    let lit: Vec<usize> = (0..2048).filter(|&k| cpu.display[k]).collect();
    assert_eq!(lit, vec![31 * 64 + 60, 31 * 64 + 61, 31 * 64 + 62, 31 * 64 + 63]);
}

#[test]
fn clear_screen() {
    let mut cpu = machine_with(&[0x00, 0xE0]);
    cpu.display[100] = true;
    cpu.display[2047] = true;
    run(&mut cpu, 1);
    assert!(cpu.display.iter().all(|&p| !p));
}

#[test]
fn key_skips() {
    let mut cpu = machine_with(&[0xE1, 0x9E]);
    cpu.v_reg[1] = 0xA;
    cpu.keys[0xA] = true;
    run(&mut cpu, 1);
    assert_eq!(cpu.pc, 0x204);

    let mut cpu = machine_with(&[0xE1, 0xA1]);
    cpu.v_reg[1] = 0xA;
    cpu.keys[0xA] = true;
    run(&mut cpu, 1);
    assert_eq!(cpu.pc, 0x202);
}

#[test]
fn wait_key_stalls_then_takes_lowest_key() {
    let mut cpu = machine_with(&[0xF4, 0x0A]);
    run(&mut cpu, 3);
    assert_eq!(cpu.pc, 0x200);
    assert_eq!(cpu.v_reg[4], 0);
    cpu.keys[0xC] = true;
    cpu.keys[0x7] = true;
    run(&mut cpu, 1);
    assert_eq!(cpu.pc, 0x202);
    assert_eq!(cpu.v_reg[4], 7);
}

#[test]
fn timers_from_registers() {
    let mut cpu = machine_with(&[0xF1, 0x15, 0xF2, 0x18, 0xF3, 0x07]);
    cpu.v_reg[1] = 30;
    cpu.v_reg[2] = 2;
    run(&mut cpu, 3);
    assert_eq!(cpu.delay_timer, 30);
    assert_eq!(cpu.sound_timer, 2);
    assert_eq!(cpu.v_reg[3], 30);
}

#[test]
fn tick_timers_counts_down_and_beeps_once() {
    let mut cpu = CPU::new();
    cpu.delay_timer = 1;
    cpu.sound_timer = 2;
    assert!(!cpu.tick_timers());
    assert_eq!(cpu.delay_timer, 0);
    assert_eq!(cpu.sound_timer, 1);
    assert!(cpu.tick_timers());
    assert_eq!(cpu.delay_timer, 0);
    assert_eq!(cpu.sound_timer, 0);
    assert!(!cpu.tick_timers());
    assert_eq!(cpu.sound_timer, 0);
}

#[test]
fn bcd_of_register() {
    let mut cpu = machine_with(&[0xA4, 0x00, 0xF5, 0x33]);
    cpu.v_reg[5] = 254;
    run(&mut cpu, 2);
    assert_eq!(&cpu.ram[0x400..0x403], &[2, 5, 4]);
}

#[test]
fn store_and_load_registers() {
    let mut cpu = machine_with(&[0xA4, 0x00, 0xF3, 0x55, 0x60, 0x00, 0x61, 0x00, 0xF2, 0x65]);
    for k in 0..16 {
        cpu.v_reg[k] = 10 + k as u8;
    }
    run(&mut cpu, 2);
    assert_eq!(&cpu.ram[0x400..0x405], &[10, 11, 12, 13, 0]);
    run(&mut cpu, 3);
    assert_eq!(&cpu.v_reg[0..5], &[10, 11, 12, 13, 14]);
    assert_eq!(cpu.i_reg, 0x400);
}

#[test]
fn check_tick_reports_each_fault() {
    let mut cpu = CPU::new();
    cpu.pc = 0xFFF;
    assert_eq!(cpu.check_tick(), Err(TickFault::PcOutOfMemory));

    let cpu = machine_with(&[0x01, 0x23]);
    assert_eq!(cpu.check_tick(), Err(TickFault::UnknownOpcode { opcode: 0x0123 }));

    let cpu = machine_with(&[0x00, 0xEE]);
    assert_eq!(cpu.check_tick(), Err(TickFault::StackUnderflow));

    let mut cpu = machine_with(&[0x22, 0x00]);
    cpu.sp = 16;
    assert_eq!(cpu.check_tick(), Err(TickFault::StackOverflow));

    let mut cpu = machine_with(&[0xD0, 0x03]);
    cpu.i_reg = 0xFFE;
    assert_eq!(cpu.check_tick(), Err(TickFault::MemoryOutOfRange));

    let mut cpu = machine_with(&[0xF2, 0x55]);
    cpu.i_reg = 0xFFE;
    assert_eq!(cpu.check_tick(), Err(TickFault::MemoryOutOfRange));

    let mut cpu = machine_with(&[0xF2, 0x33]);
    cpu.i_reg = 0xFFE;
    assert_eq!(cpu.check_tick(), Err(TickFault::MemoryOutOfRange));

    let mut cpu = machine_with(&[0xE1, 0x9E]);
    cpu.v_reg[1] = 16;
    assert_eq!(cpu.check_tick(), Err(TickFault::KeyOutOfRange));

    let mut cpu = machine_with(&[0xD0, 0x00]);
    cpu.i_reg = 0xFFFF;
    assert_eq!(cpu.check_tick(), Ok(()));
}

#[test]
fn random_byte_only_matters_for_cxnn() {
    let mut a = machine_with(&[0x61, 0x22, 0x81, 0x14]);
    let mut b = machine_with(&[0x61, 0x22, 0x81, 0x14]);
    a.tick_with_random(0x00);
    b.tick_with_random(0xFF);
    a.tick_with_random(0x12);
    b.tick_with_random(0x34);
    assert_eq!(a.v_reg, b.v_reg);
    assert_eq!(a.pc, b.pc);
    assert_eq!(a.v_reg[1], 0x44);
}

#[test]
fn sound_timer_beeps_exactly_once() {
    let mut cpu = CPU::new();
    cpu.sound_timer = 5;
    let beeps: Vec<bool> = (0..8).map(|_| cpu.tick_timers()).collect();
    assert_eq!(beeps, vec![false, false, false, false, true, false, false, false]);
}

#[test]
fn frame_runs_ten_cycles_then_one_timer_step() {
    // Eleven increments of V0; a frame runs ten of them.
    let program: Vec<u8> = (0..11).flat_map(|_| [0x70, 0x01]).collect();
    let mut cpu = machine_with(&program);
    cpu.delay_timer = 3;
    cpu.sound_timer = 1;
    let mut keys = [false; 16];
    keys[5] = true;
    let res = cpu.run_frame_with_random(keys, [0; CYCLES_PER_FRAME]);
    assert_eq!(res, Ok(true));
    assert_eq!(cpu.v_reg[0], 10);
    assert_eq!(cpu.pc, 0x200 + 20);
    assert_eq!(cpu.delay_timer, 2);
    assert_eq!(cpu.sound_timer, 0);
    assert_eq!(cpu.keys, keys);
    assert_eq!(cpu.run_frame_with_random([false; 16], [0; CYCLES_PER_FRAME]), Err(TickFault::UnknownOpcode { opcode: 0 }));
    // The frame stopped after the eleventh increment, before its timer step.
    assert_eq!(cpu.v_reg[0], 11);
    assert_eq!(cpu.delay_timer, 2);
    assert_eq!(cpu.keys, [false; 16]);
}

#[test]
fn frame_uses_given_random_bytes_in_order() {
    let program: Vec<u8> = (0..10).flat_map(|k| [0xC0 + k as u8, 0xFF]).collect();
    let mut cpu = machine_with(&program);
    let rs = [9, 8, 7, 6, 5, 4, 3, 2, 1, 0];
    assert_eq!(cpu.run_frame_with_random([false; 16], rs), Ok(false));
    assert_eq!(&cpu.v_reg[0..10], &rs[..]);
}

#[test]
fn frame_stops_at_fault_without_timer_step() {
    let mut cpu = machine_with(&[0x60, 0x07, 0x00, 0xEE]);
    cpu.delay_timer = 4;
    assert_eq!(cpu.run_frame([false; 16]), Err(TickFault::StackUnderflow));
    assert_eq!(cpu.v_reg[0], 7);
    assert_eq!(cpu.pc, 0x202);
    assert_eq!(cpu.delay_timer, 4);
}

#[test]
fn frame_with_wait_key_resumes_on_key() {
    let mut cpu = machine_with(&[0xF3, 0x0A, 0x12, 0x02]);
    assert_eq!(cpu.run_frame([false; 16]), Ok(false));
    assert_eq!(cpu.pc, 0x200);
    let mut keys = [false; 16];
    keys[0xB] = true;
    assert_eq!(cpu.run_frame(keys), Ok(false));
    assert_eq!(cpu.v_reg[3], 0xB);
    assert_eq!(cpu.pc, 0x202);
}

#[test]
fn random_generator_is_seeded_by_first_cxnn() {
    let mut cpu = machine_with(&[0x60, 0x01, 0xC1, 0xFF, 0xC2, 0x0F]);
    assert!(cpu.generator.is_none());
    run(&mut cpu, 1);
    assert!(cpu.generator.is_none());
    run(&mut cpu, 2);
    assert!(cpu.generator.is_some());
    assert!(cpu.v_reg[2] <= 0x0F);
    assert_eq!(cpu.pc, 0x206);
}

#[test]
fn timers_run_out_within_255_steps_with_one_beep() {
    let mut cpu = CPU::new();
    cpu.delay_timer = 255;
    cpu.sound_timer = 200;
    let beeps = (0..255).filter(|_| cpu.tick_timers()).count();
    assert_eq!(beeps, 1);
    assert_eq!(cpu.delay_timer, 0);
    assert_eq!(cpu.sound_timer, 0);
}

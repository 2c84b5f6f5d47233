use chip8::cpu::Cpu;

/// Loads `program` into a fresh machine and runs it for `ticks` cycles.
fn run(program: &[u8], ticks: usize) -> Cpu {
    let mut cpu = Cpu::new();
    cpu.load(program);
    for _ in 0..ticks {
        assert!(cpu.can_tick());
        cpu.tick();
    }
    cpu
}

#[test]
fn add_immediate_wraps_modulo_256() {
    // V0 = 0xFF, then V0 += 0x02: wraps to 0x01 with no flag written.
    let cpu = run(&[0x60, 0xFF, 0x70, 0x02], 2);
    assert_eq!(cpu.v[0], 0x01);
    assert_eq!(cpu.v[0xF], 0x00);
}

#[test]
fn add_registers_carry_from_wrapped_result() {
    // V0 = 0x80, V1 = 0x80, V0 += V1: wrapped result 0x00 is below V1, so VF = 1.
    let cpu = run(&[0x60, 0x80, 0x61, 0x80, 0x80, 0x14], 3);
    assert_eq!(cpu.v[0], 0x00);
    assert_eq!(cpu.v[0xF], 1);
}

#[test]
fn sub_registers_no_borrow() {
    let cpu = run(&[0x60, 0x05, 0x61, 0x03, 0x80, 0x15], 3);
    assert_eq!(cpu.v[0xF], 1);
    assert_eq!(cpu.v[0], 0x02);
}

#[test]
fn sub_registers_with_borrow_wraps() {
    let cpu = run(&[0x60, 0x03, 0x61, 0x05, 0x80, 0x15], 3);
    assert_eq!(cpu.v[0xF], 0);
    assert_eq!(cpu.v[0], 0xFE);
}

#[test]
fn sub_reversed_no_borrow() {
    // V0 = Vy - Vx with Vy > Vx: VF = 1.
    let cpu = run(&[0x60, 0x03, 0x61, 0x05, 0x80, 0x17], 3);
    assert_eq!(cpu.v[0xF], 1);
    assert_eq!(cpu.v[0], 0x02);
}

#[test]
fn sub_reversed_with_borrow_wraps() {
    let cpu = run(&[0x60, 0x05, 0x61, 0x03, 0x80, 0x17], 3);
    assert_eq!(cpu.v[0xF], 0);
    assert_eq!(cpu.v[0], 0xFE);
}

#[test]
fn shift_right_keeps_dropped_bit() {
    let cpu = run(&[0x60, 0x03, 0x80, 0x06], 2);
    assert_eq!(cpu.v[0xF], 1);
    assert_eq!(cpu.v[0], 0x01);
}

#[test]
fn shift_left_keeps_dropped_bit() {
    let cpu = run(&[0x60, 0x81, 0x80, 0x0E], 2);
    assert_eq!(cpu.v[0xF], 1);
    assert_eq!(cpu.v[0], 0x02);
}

#[test]
fn logic_or_and_xor() {
    let or = run(&[0x60, 0xF0, 0x61, 0x0F, 0x80, 0x11], 3);
    assert_eq!(or.v[0], 0xFF);
    let and = run(&[0x60, 0xF0, 0x61, 0xF1, 0x80, 0x12], 3);
    assert_eq!(and.v[0], 0xF0);
    let xor = run(&[0x60, 0xF0, 0x61, 0xFF, 0x80, 0x13], 3);
    assert_eq!(xor.v[0], 0x0F);
}

#[test]
fn register_move() {
    let cpu = run(&[0x61, 0x2A, 0x80, 0x10], 2);
    assert_eq!(cpu.v[0], 0x2A);
}

#[test]
fn skip_if_equal_immediate() {
    // V0 = 5; the 0x3005 at 0x202 skips, landing at 0x206.
    let cpu = run(&[0x60, 0x05, 0x30, 0x05], 2);
    assert_eq!(cpu.pc, 0x206);
    // ...and falls through to 0x204 when unequal.
    let cpu = run(&[0x60, 0x05, 0x30, 0x04], 2);
    assert_eq!(cpu.pc, 0x204);
}

#[test]
fn skip_if_unequal_immediate() {
    let cpu = run(&[0x60, 0x05, 0x40, 0x04], 2);
    assert_eq!(cpu.pc, 0x206);
    let cpu = run(&[0x60, 0x05, 0x40, 0x05], 2);
    assert_eq!(cpu.pc, 0x204);
}

#[test]
fn skip_on_register_compare() {
    let eq = run(&[0x60, 0x07, 0x61, 0x07, 0x50, 0x10], 3);
    assert_eq!(eq.pc, 0x208);
    let ne = run(&[0x60, 0x07, 0x61, 0x08, 0x90, 0x10], 3);
    assert_eq!(ne.pc, 0x208);
}

#[test]
fn jump_sets_pc() {
    let cpu = run(&[0x12, 0x34], 1);
    assert_eq!(cpu.pc, 0x234);
}

#[test]
fn jump_with_offset() {
    let cpu = run(&[0x60, 0x10, 0xB2, 0x00], 2);
    assert_eq!(cpu.pc, 0x210);
}

#[test]
fn call_then_return_resumes_after_call() {
    // 0x200: call 0x208; 0x208: return. The return lands at 0x202.
    let mut program = [0u8; 10];
    program[0] = 0x22;
    program[1] = 0x08;
    program[8] = 0x00;
    program[9] = 0xEE;
    let mut cpu = Cpu::new();
    cpu.load(&program);
    assert!(cpu.can_tick());
    cpu.tick();
    assert_eq!(cpu.pc, 0x208);
    assert_eq!(cpu.sp, 1);
    assert_eq!(cpu.stack[0], 0x200);
    assert!(cpu.can_tick());
    cpu.tick();
    assert_eq!(cpu.pc, 0x202);
    assert_eq!(cpu.sp, 0);
}

#[test]
fn deep_calls_wrap_onto_the_bottom_slot() {
    // Seventeen calls in a row: the seventeenth overwrites slot 0.
    let mut program = Vec::new();
    for k in 0..17u16 {
        let target = 0x200 + 2 * k + 2;
        program.push(0x20 | (target >> 8) as u8);
        program.push((target & 0xFF) as u8);
    }
    let cpu = run(&program, 17);
    assert_eq!(cpu.sp, 1);
    assert_eq!(cpu.stack[0], 0x220);
    assert_eq!(cpu.stack[1], 0x202);
}

#[test]
fn return_on_empty_stack_wraps_to_top_slot() {
    let cpu = run(&[0x00, 0xEE], 1);
    assert_eq!(cpu.sp, 15);
    assert_eq!(cpu.pc, 2);
}

#[test]
fn set_index_register() {
    let cpu = run(&[0xA1, 0x23], 1);
    assert_eq!(cpu.i, 0x123);
}

#[test]
fn random_byte_is_masked() {
    for _ in 0..8 {
        let cpu = run(&[0xC0, 0x0F], 1);
        assert_eq!(cpu.v[0] & 0xF0, 0);
    }
}

#[test]
fn delay_timer_counts_down_to_zero_and_stays() {
    // V0 = 3; delay = V0; then spin on a self-jump.
    let mut cpu = Cpu::new();
    cpu.load(&[0x60, 0x03, 0xF0, 0x15, 0x12, 0x04]);
    cpu.tick();
    assert_eq!(cpu.delay_timer, 0);
    cpu.tick();
    // The set and the first countdown share a tick.
    assert_eq!(cpu.delay_timer, 2);
    cpu.tick();
    assert_eq!(cpu.delay_timer, 1);
    cpu.tick();
    assert_eq!(cpu.delay_timer, 0);
    cpu.tick();
    assert_eq!(cpu.delay_timer, 0);
}

#[test]
fn read_delay_timer_into_register() {
    let cpu = run(&[0x60, 0x05, 0xF0, 0x15, 0xF1, 0x07], 3);
    // After the setting tick the timer is 4; the read sees it before this
    // tick's own countdown brings it to 3.
    assert_eq!(cpu.v[1], 4);
    assert_eq!(cpu.delay_timer, 3);
}

#[test]
fn sound_timer_is_stored() {
    let cpu = run(&[0x60, 0x09, 0xF0, 0x18], 2);
    assert_eq!(cpu.sound_timer, 9);
}

#[test]
fn add_register_to_index() {
    let cpu = run(&[0x60, 0x05, 0xA3, 0x00, 0xF0, 0x1E], 3);
    assert_eq!(cpu.i, 0x305);
}

#[test]
fn font_address_is_five_times_digit() {
    let cpu = run(&[0x60, 0x04, 0xF0, 0x29], 2);
    assert_eq!(cpu.i, 20);
}

#[test]
fn bcd_store_uses_as_built_third_digit() {
    // V0 = 156: hundreds digit 1, tens digit 5, and the third slot holds
    // (156 / 100) % 10 = 1, the machine's own formula.
    let cpu = run(&[0x60, 0x9C, 0xA3, 0x00, 0xF0, 0x33], 3);
    assert_eq!(cpu.v_ram[0x300], 1);
    assert_eq!(cpu.v_ram[0x301], 5);
    assert_eq!(cpu.v_ram[0x302], (156 / 100) % 10);
}

#[test]
fn register_dump_and_restore_advance_index() {
    let cpu = run(
        &[
            0x60, 0x05, // V0 = 5
            0x61, 0x03, // V1 = 3
            0xA3, 0x00, // I = 0x300
            0xF1, 0x55, // memory[I..=I+1] = V0..=V1; I += 2
            0x60, 0x00, // V0 = 0
            0x61, 0x00, // V1 = 0
            0xA3, 0x00, // I = 0x300
            0xF1, 0x65, // V0..=V1 = memory[I..=I+1]; I += 2
        ],
        8,
    );
    assert_eq!(cpu.v_ram[0x300], 5);
    assert_eq!(cpu.v_ram[0x301], 3);
    assert_eq!(cpu.v[0], 5);
    assert_eq!(cpu.v[1], 3);
    assert_eq!(cpu.i, 0x302);
}

#[test]
fn skip_when_key_held() {
    let mut cpu = Cpu::new();
    cpu.load(&[0x60, 0x05, 0xE0, 0x9E]);
    cpu.key_pad.keys[5] = true;
    cpu.tick();
    cpu.tick();
    assert_eq!(cpu.pc, 0x206);
}

#[test]
fn skip_when_key_not_held() {
    let mut cpu = Cpu::new();
    cpu.load(&[0x60, 0x05, 0xE0, 0xA1]);
    cpu.tick();
    cpu.tick();
    assert_eq!(cpu.pc, 0x206);
    let mut held = Cpu::new();
    held.load(&[0x60, 0x05, 0xE0, 0xA1]);
    held.key_pad.keys[5] = true;
    held.tick();
    held.tick();
    assert_eq!(held.pc, 0x204);
}

#[test]
fn key_wait_blocks_until_a_key_arrives() {
    let mut cpu = Cpu::new();
    cpu.load(&[0xF0, 0x0A]);
    cpu.tick();
    cpu.tick();
    assert_eq!(cpu.pc, 0x200);
    cpu.key_pad.keys[7] = true;
    cpu.tick();
    assert_eq!(cpu.v[0], 7);
    assert_eq!(cpu.pc, 0x202);
}

#[test]
fn key_wait_takes_the_lowest_held_key() {
    let mut cpu = Cpu::new();
    cpu.load(&[0xF0, 0x0A]);
    cpu.key_pad.keys[9] = true;
    cpu.key_pad.keys[2] = true;
    cpu.tick();
    assert_eq!(cpu.v[0], 2);
}

#[test]
fn unrecognized_codes_only_advance() {
    for program in [[0x00u8, 0x11], [0x80, 0x08], [0xF0, 0xFF], [0xE0, 0x00]] {
        let cpu = run(&program, 1);
        assert_eq!(cpu.pc, 0x202);
        assert_eq!(cpu.v[0], 0);
        assert_eq!(cpu.sp, 0);
    }
}

#[test]
fn draw_font_digit_and_erase_it() {
    // I = font sprite of digit 0; draw at (V1, V1) = (0, 0), redraw erases.
    let mut cpu = Cpu::new();
    cpu.load(&[0x60, 0x00, 0xF0, 0x29, 0xD1, 0x15, 0xD1, 0x15]);
    cpu.tick();
    cpu.tick();
    cpu.tick();
    assert_eq!(cpu.v[0xF], 0);
    // Digit 0's top row byte is 0xF0: pixels in columns 0..4 of row 0.
    assert_eq!(&cpu.screen.gfx[0..5], &[1, 1, 1, 1, 0]);
    cpu.tick();
    assert_eq!(cpu.v[0xF], 1);
    assert!(cpu.screen.gfx.iter().all(|&p| p == 0));
}

#[test]
fn program_of_three_instructions_runs_end_to_end() {
    // V0 = 5, V1 = 3, V0 += V1: three cycles move pc by 6 and leave V0 = 8.
    let cpu = run(&[0x60, 0x05, 0x61, 0x03, 0x80, 0x14], 3);
    assert_eq!(cpu.v[0], 8);
    assert_eq!(cpu.v[0xF], 0);
    assert_eq!(cpu.pc, 0x206);
}

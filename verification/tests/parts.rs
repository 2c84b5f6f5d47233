use chip8::cartridge::Cartridge;
use chip8::cpu::Cpu;
use chip8::display::Display;
use chip8::font::font_set;

#[test]
fn power_on_state() {
    let cpu = Cpu::new();
    assert_eq!(cpu.pc, 0x200);
    assert_eq!(cpu.i, 0x200);
    assert_eq!(cpu.sp, 0);
    assert_eq!(cpu.delay_timer, 0);
    assert_eq!(cpu.sound_timer, 0);
    assert!(cpu.v.iter().all(|&r| r == 0));
    assert!(cpu.stack.iter().all(|&s| s == 0));
    assert!(cpu.key_pad.keys.iter().all(|&k| !k));
    // Font table in the bottom eighty bytes, zeroes beyond.
    let font = font_set();
    assert_eq!(font.len(), 80);
    assert_eq!(&cpu.v_ram[0..80], &font[..]);
    assert!(cpu.v_ram[80..].iter().all(|&b| b == 0));
    assert_eq!(cpu.v_ram[0], 0xF0);
    assert_eq!(cpu.v_ram[79], 0x80);
}

#[test]
fn load_truncates_long_programs_silently() {
    let data = vec![0xAB; 4000];
    let mut cpu = Cpu::new();
    cpu.load(&data);
    assert_eq!(cpu.v_ram.len(), 4096);
    assert!(cpu.v_ram[0x200..].iter().all(|&b| b == 0xAB));
    // Everything below the entry address is untouched.
    assert_eq!(cpu.v_ram[79], 0x80);
    assert_eq!(cpu.v_ram[0x1FF], 0);
}

#[test]
fn load_of_short_program_leaves_the_tail_alone() {
    let mut cpu = Cpu::new();
    cpu.load(&[1, 2, 3]);
    assert_eq!(&cpu.v_ram[0x200..0x203], &[1, 2, 3]);
    assert!(cpu.v_ram[0x203..].iter().all(|&b| b == 0));
}

#[test]
fn cartridge_pads_and_truncates() {
    let short = Cartridge::new(&[9, 8, 7]);
    assert_eq!(short.size, 3);
    assert_eq!(short.rom.len(), 3584);
    assert_eq!(&short.rom[0..3], &[9, 8, 7]);
    assert!(short.rom[3..].iter().all(|&b| b == 0));
    let long = Cartridge::new(&vec![5u8; 5000]);
    assert_eq!(long.size, 3584);
    assert!(long.rom.iter().all(|&b| b == 5));
}

#[test]
fn draw_twice_restores_the_buffer_and_collides() {
    let mut d = Display::new();
    let first = d.draw(5, 3, &[0xFF, 0x81]);
    assert_eq!(first, 0);
    let second = d.draw(5, 3, &[0xFF, 0x81]);
    assert_eq!(second, 1);
    assert!(d.gfx.iter().all(|&p| p == 0));
}

#[test]
fn draw_wraps_toroidally_at_the_right_edge() {
    let mut d = Display::new();
    d.draw(60, 0, &[0xFF]);
    for c in [60, 61, 62, 63, 0, 1, 2, 3] {
        assert_eq!(d.gfx[c], 1, "column {} of row 0", c);
    }
    assert_eq!(d.gfx.iter().filter(|&&p| p == 1).count(), 8);
}

#[test]
fn draw_wraps_toroidally_at_the_bottom_edge() {
    let mut d = Display::new();
    d.draw(0, 31, &[0x80, 0x80]);
    assert_eq!(d.gfx[31 * 64], 1);
    assert_eq!(d.gfx[0], 1);
    assert_eq!(d.gfx.iter().filter(|&&p| p == 1).count(), 2);
}

#[test]
fn draw_reports_partial_overlap() {
    let mut d = Display::new();
    d.draw(0, 0, &[0x80]);
    let coll = d.draw(0, 0, &[0xC0]);
    assert_eq!(coll, 1);
    assert_eq!(&d.gfx[0..2], &[0, 1]);
}

#[test]
fn clear_blanks_every_pixel() {
    let mut d = Display::new();
    d.draw(10, 10, &[0xFF, 0xFF]);
    d.clear();
    assert!(d.gfx.iter().all(|&p| p == 0));
    assert!(d.draw_flag);
}

#[test]
fn dirty_flag_lifecycle() {
    let mut d = Display::new();
    assert!(d.needs_redraw());
    d.mark_presented();
    assert!(!d.needs_redraw());
    d.draw(0, 0, &[0x00]);
    assert!(d.needs_redraw());
}

#[test]
fn can_tick_refuses_an_out_of_range_store() {
    let mut cpu = Cpu::new();
    cpu.load(&[0xF0, 0x33]);
    assert!(cpu.can_tick());
    cpu.i = 4095;
    assert!(!cpu.can_tick());
}

#[test]
fn can_tick_refuses_a_sprite_read_past_memory() {
    let mut cpu = Cpu::new();
    cpu.load(&[0xD0, 0x05]);
    assert!(cpu.can_tick());
    cpu.i = 4092;
    assert!(!cpu.can_tick());
}

#[test]
fn can_tick_refuses_an_unfetchable_counter() {
    let mut cpu = Cpu::new();
    cpu.pc = 4095;
    assert!(!cpu.can_tick());
}

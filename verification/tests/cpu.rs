use chip8::cpu::RomTooLarge;
use chip8::Cpu;

fn run(program: &[u16]) -> Cpu {
    let rom: Vec<u8> = program.iter().flat_map(|op| op.to_be_bytes()).collect();
    let mut cpu = Cpu::with_seed(42);
    cpu.load(&rom).unwrap();
    for _ in program {
        cpu.step();
    }
    cpu
}

#[test]
fn rejects_oversized_rom() {
    let mut cpu = Cpu::new();
    assert_eq!(cpu.load(&[0; 0xE01]), Err(RomTooLarge(0xE01)));
}

#[test]
fn set_and_add() {
    let cpu = run(&[0x6A12, 0x7AFF]);
    assert_eq!(cpu.v()[0xA], 0x11); // wraps
}

#[test]
fn add_with_carry() {
    let cpu = run(&[0x60F0, 0x6120, 0x8014]);
    assert_eq!(cpu.v()[0], 0x10);
    assert_eq!(cpu.v()[0xF], 1);
}

#[test]
fn sub_with_not_borrow() {
    let cpu = run(&[0x6005, 0x6105, 0x8015]);
    assert_eq!(cpu.v()[0], 0);
    assert_eq!(cpu.v()[0xF], 1);

    let cpu = run(&[0x6001, 0x6102, 0x8015]);
    assert_eq!(cpu.v()[0], 0xFF);
    assert_eq!(cpu.v()[0xF], 0);
}

#[test]
fn shifts_set_vf_to_shifted_out_bit() {
    let cpu = run(&[0x6081, 0x800E]);
    assert_eq!(cpu.v()[0], 0x02);
    assert_eq!(cpu.v()[0xF], 1);

    let cpu = run(&[0x6003, 0x8006]);
    assert_eq!(cpu.v()[0], 0x01);
    assert_eq!(cpu.v()[0xF], 1);
}

#[test]
fn skip_next_instruction() {
    // V1 = 1 is skipped, so the last step runs past the program
    let cpu = run(&[0x6007, 0x3007, 0x6101, 0x6201]);
    assert_eq!(cpu.pc(), 0x20A);
    assert_eq!(cpu.v()[1], 0);
    assert_eq!(cpu.v()[2], 1);
}

#[test]
fn call_and_return() {
    let mut cpu = Cpu::with_seed(1);
    // 0x200: call 0x206; 0x202: V0 = 1; 0x206: return
    cpu.load(&[0x22, 0x06, 0x60, 0x01, 0x00, 0x00, 0x00, 0xEE])
        .unwrap();
    cpu.step();
    assert_eq!(cpu.pc(), 0x206);
    cpu.step();
    assert_eq!(cpu.pc(), 0x202);
    cpu.step();
    assert_eq!(cpu.v()[0], 1);
}

#[test]
fn bcd() {
    let cpu = run(&[0x60FE, 0xA300, 0xF033]);
    assert_eq!(&cpu.memory()[0x300..0x303], &[2, 5, 4]);
}

#[test]
fn store_and_load_registers() {
    let mut cpu = run(&[0x6001, 0x6102, 0x6203, 0xA300, 0xF255]);
    assert_eq!(&cpu.memory()[0x300..0x303], &[1, 2, 3]);
    cpu.set_v([0; 16]);
    cpu.execute(0xF165);
    assert_eq!(&cpu.v()[..3], &[1, 2, 0]);
}

#[test]
fn draw_detects_collision() {
    // draw font "0" at (0, 0) twice
    let cpu = run(&[0x6000, 0xF029, 0xD005]);
    assert!(cpu.display().get(0, 0));
    assert_eq!(cpu.v()[0xF], 0);

    let cpu = run(&[0x6000, 0xF029, 0xD005, 0xD005]);
    assert!(!cpu.display().get(0, 0));
    assert_eq!(cpu.v()[0xF], 1);
}

#[test]
fn wait_for_key() {
    let mut cpu = run(&[0xF30A, 0x6001]);
    assert_eq!(cpu.pc(), 0x202); // halted on the instruction after FX0A
    assert_eq!(cpu.v()[0], 0);
    cpu.set_key(0xB, true);
    assert_eq!(cpu.v()[3], 0xB);
    cpu.step();
    assert_eq!(cpu.v()[0], 1);
}

#[test]
fn key_skips() {
    let mut cpu = Cpu::with_seed(1);
    cpu.load(&[0x60, 0x05, 0xE0, 0x9E]).unwrap();
    cpu.set_key(5, true);
    cpu.step();
    cpu.step();
    assert_eq!(cpu.pc(), 0x206);
}

#[test]
fn timers() {
    let mut cpu = run(&[0x6002, 0xF015, 0xF018]);
    assert!(cpu.tick_timers());
    assert!(cpu.tick_timers());
    assert!(!cpu.tick_timers());
    cpu.execute(0xF107);
    assert_eq!(cpu.v()[1], 0);
}

// ---- further cases

#[test]
fn power_on_state() {
    let cpu = Cpu::with_seed(7);
    assert_eq!(cpu.pc(), 0x200);
    assert_eq!(cpu.i(), 0);
    assert_eq!(cpu.v(), [0; 16]);
    assert_eq!(&cpu.memory()[0..5], &[0xF0, 0x90, 0x90, 0x90, 0xF0]);
    assert_eq!(&cpu.memory()[75..80], &[0xF0, 0x80, 0xF0, 0x80, 0x80]);
    assert_eq!(cpu.memory()[80], 0);
    assert_eq!(cpu.waiting_for_key(), None);
}

#[test]
fn load_copies_rom_to_program_area() {
    let mut cpu = Cpu::with_seed(3);
    assert_eq!(cpu.load(&[1, 2, 3]), Ok(()));
    assert_eq!(&cpu.memory()[0x1FF..0x204], &[0, 1, 2, 3, 0]);
    let full = vec![0xAB; 0xE00];
    assert_eq!(cpu.load(&full), Ok(()));
    assert_eq!(cpu.memory()[0xFFF], 0xAB);
}

#[test]
fn oversized_rom_leaves_memory_alone() {
    let mut cpu = Cpu::with_seed(3);
    cpu.load(&[9, 9]).unwrap();
    assert_eq!(cpu.load(&[1; 0xE01]), Err(RomTooLarge(0xE01)));
    assert_eq!(&cpu.memory()[0x200..0x203], &[9, 9, 0]);
}

#[test]
fn return_with_empty_stack_restarts() {
    let mut cpu = Cpu::with_seed(1);
    cpu.execute(0x1456);
    assert_eq!(cpu.pc(), 0x456);
    cpu.execute(0x00EE);
    assert_eq!(cpu.pc(), 0x200);
}

#[test]
fn machine_code_routine_is_skipped() {
    let cpu = run(&[0x0123, 0x6A01]);
    assert_eq!(cpu.pc(), 0x204);
    assert_eq!(cpu.v()[0xA], 1);
}

#[test]
fn call_overflow_still_jumps() {
    let mut cpu = Cpu::with_seed(1);
    for _ in 0..17 {
        cpu.execute(0x2300);
    }
    assert_eq!(cpu.pc(), 0x300);
    // the first call pushed 0x200, the next 15 pushed 0x300, the last did not fit
    for _ in 0..15 {
        cpu.execute(0x00EE);
        assert_eq!(cpu.pc(), 0x300);
    }
    cpu.execute(0x00EE);
    assert_eq!(cpu.pc(), 0x200);
    cpu.execute(0x1400);
    cpu.execute(0x00EE);
    assert_eq!(cpu.pc(), 0x200);
}

#[test]
fn jump_with_offset_wraps() {
    let mut cpu = Cpu::with_seed(1);
    cpu.execute(0x60FF);
    cpu.execute(0xBFFF);
    assert_eq!(cpu.pc(), (0xFFF + 0xFF) & 0xFFF);
}

#[test]
fn pc_wraps_at_end_of_memory() {
    let mut cpu = Cpu::with_seed(1);
    cpu.execute(0x1FFE);
    cpu.step();
    assert_eq!(cpu.pc(), 0x000);
}

#[test]
fn skips_on_register_comparisons() {
    let cpu = run(&[0x6003, 0x4004, 0x6101, 0x6201]);
    assert_eq!(cpu.v()[1], 0);
    let cpu = run(&[0x6003, 0x6103, 0x5010, 0x6201]);
    assert_eq!(cpu.v()[2], 0);
    let cpu = run(&[0x6003, 0x6104, 0x9010, 0x6201]);
    assert_eq!(cpu.v()[2], 0);
    let cpu = run(&[0x6003, 0x6103, 0x9010, 0x6201]);
    assert_eq!(cpu.v()[2], 1);
}

#[test]
fn logic_ops() {
    let cpu = run(&[0x600C, 0x610A, 0x8011]);
    assert_eq!(cpu.v()[0], 0x0E);
    let cpu = run(&[0x600C, 0x610A, 0x8012]);
    assert_eq!(cpu.v()[0], 0x08);
    let cpu = run(&[0x600C, 0x610A, 0x8013]);
    assert_eq!(cpu.v()[0], 0x06);
    let cpu = run(&[0x600C, 0x610A, 0x8010]);
    assert_eq!(cpu.v()[0], 0x0A);
}

#[test]
fn reverse_sub_sets_not_borrow() {
    let cpu = run(&[0x6003, 0x6105, 0x8017]);
    assert_eq!(cpu.v()[0], 2);
    assert_eq!(cpu.v()[0xF], 1);
    let cpu = run(&[0x6005, 0x6103, 0x8017]);
    assert_eq!(cpu.v()[0], 0xFE);
    assert_eq!(cpu.v()[0xF], 0);
}

#[test]
fn carry_overrides_result_in_vf() {
    let cpu = run(&[0x6FF0, 0x6120, 0x8F14]);
    assert_eq!(cpu.v()[0xF], 1);
}

#[test]
fn add_to_index_and_font_address() {
    let cpu = run(&[0xAFFF, 0x6002, 0xF01E]);
    assert_eq!(cpu.i(), 0x1001);
    let cpu = run(&[0x601B, 0xF029]);
    assert_eq!(cpu.i(), 0xB * 5);
}

#[test]
fn bcd_wraps_at_end_of_memory() {
    let cpu = run(&[0x607B, 0xAFFF, 0xF033]);
    assert_eq!(cpu.memory()[0xFFF], 1);
    assert_eq!(cpu.memory()[0x000], 2);
    assert_eq!(cpu.memory()[0x001], 3);
}

#[test]
fn random_is_masked_and_seeded() {
    let a = run(&[0xC0FF, 0xC10F]);
    let b = run(&[0xC0FF, 0xC10F]);
    assert_eq!(a.v()[0], b.v()[0]);
    assert!(a.v()[1] <= 0x0F);
    let mut r: u32 = 42 | 1;
    r ^= r << 13;
    r ^= r >> 17;
    r ^= r << 5;
    assert_eq!(a.v()[0], r as u8);
    let z = run(&[0xC000]);
    assert_eq!(z.v()[0], 0);
}

#[test]
fn key_not_pressed_skip() {
    let mut cpu = Cpu::with_seed(1);
    cpu.load(&[0x60, 0x05, 0xE0, 0xA1]).unwrap();
    cpu.step();
    cpu.step();
    assert_eq!(cpu.pc(), 0x206);
    cpu.set_key(5, true);
    cpu.execute(0xE0A1);
    assert_eq!(cpu.pc(), 0x206);
}

#[test]
fn key_release_does_not_resume() {
    let mut cpu = run(&[0xF30A]);
    cpu.set_key(0x2, false);
    assert_eq!(cpu.waiting_for_key(), Some(3));
    cpu.set_key(0x2, true);
    assert_eq!(cpu.waiting_for_key(), None);
    assert_eq!(cpu.v()[3], 2);
}

#[test]
fn sound_timer_beeps_while_active() {
    let mut cpu = run(&[0x6001, 0xF018]);
    assert_eq!(cpu.sound_timer(), 1);
    assert!(cpu.tick_timers());
    assert!(!cpu.tick_timers());
    assert_eq!(cpu.delay_timer(), 0);
}

#[test]
fn draw_clips_at_screen_edge() {
    // font "0" at (62, 30): only the top-left 2x2 corner is on screen
    let cpu = run(&[0x603E, 0x611E, 0x6200, 0xF229, 0xD015]);
    assert!(cpu.display().get(62, 30));
    assert!(cpu.display().get(63, 30));
    assert!(cpu.display().get(62, 31));
    assert!(!cpu.display().get(63, 31));
    assert!(!cpu.display().get(0, 0));
    assert_eq!(cpu.v()[0xF], 0);
}

#[test]
fn clear_screen() {
    let mut cpu = run(&[0x6000, 0xF029, 0xD005, 0x00E0]);
    assert!(!cpu.display().get(0, 0));
    assert!(cpu.display_mut().take_invalidated());
    assert!(!cpu.display_mut().take_invalidated());
}

#[test]
fn seed_zero_still_random() {
    let mut cpu = Cpu::with_seed(0);
    let mut seen_nonzero = false;
    for _ in 0..8 {
        cpu.execute(0xC0FF);
        seen_nonzero |= cpu.v()[0] != 0;
    }
    assert!(seen_nonzero);
}

#[test]
fn new_cpu_starts_at_program() {
    let cpu = Cpu::new();
    assert_eq!(cpu.pc(), 0x200);
    assert_eq!(cpu.waiting_for_key(), None);
}

#[test]
fn seeds_differing_in_low_bit_agree() {
    let mut a = Cpu::with_seed(2);
    let mut b = Cpu::with_seed(3);
    for _ in 0..4 {
        a.execute(0xC0FF);
        b.execute(0xC0FF);
        assert_eq!(a.v(), b.v());
    }
}

#[test]
fn store_then_load_restores_registers() {
    let mut cpu = run(&[0x6A0A, 0x6B0B, 0xA400, 0xFB55]);
    let saved = cpu.v();
    cpu.execute(0x6A00);
    cpu.execute(0xFB65);
    assert_eq!(cpu.v(), saved);
    assert_eq!(cpu.i(), 0x400);
}

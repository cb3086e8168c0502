use chip8::frontend::{render, run_frame, Input, BLACK, WHITE};
use chip8::{Cpu, Display};

#[test]
fn input_reports_only_changes() {
    let mut cpu = Cpu::with_seed(1);
    // wait for a key in V3
    cpu.execute(0xF30A);
    let mut input = Input::default();
    let mut keys = [false; 16];
    keys[5] = true;
    input.update(false, keys, &mut cpu);
    assert_eq!(cpu.v()[3], 5);
    assert!(!input.quit_requested());
    // the same key still held is not a fresh press
    cpu.execute(0xF30A);
    input.update(false, keys, &mut cpu);
    assert_eq!(cpu.waiting_for_key(), Some(3));
    keys[5] = false;
    input.update(true, keys, &mut cpu);
    assert_eq!(cpu.waiting_for_key(), Some(3));
    assert!(input.quit_requested());
}

#[test]
fn render_colours_pixels() {
    let mut d = Display::new();
    d.flip(1, 0);
    d.flip(0, 1);
    let mut buffer = vec![7u32; 3];
    render(&d, &mut buffer);
    assert_eq!(buffer.len(), Display::BUFF_LENGTH);
    assert_eq!(buffer[0], BLACK);
    assert_eq!(buffer[1], WHITE);
    assert_eq!(buffer[Display::WIDTH], WHITE);
    assert_eq!(buffer.iter().filter(|&&c| c == WHITE).count(), 2);
}

#[test]
fn frame_ticks_reads_keys_and_runs_three_opcodes() {
    let mut cpu = Cpu::with_seed(1);
    cpu.load(&[0x60, 0x02, 0xF0, 0x18, 0x61, 0x01, 0x62, 0x01]).unwrap();
    let mut input = Input::new();
    let mut keys = [false; 16];
    keys[9] = true;
    assert!(!run_frame(&mut cpu, &mut input, false, keys));
    assert_eq!(cpu.pc(), 0x206);
    assert_eq!(cpu.v()[1], 1);
    assert_eq!(cpu.v()[2], 0);
    assert!(run_frame(&mut cpu, &mut input, false, keys));
    assert_eq!(cpu.sound_timer(), 1);
}

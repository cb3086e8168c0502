chip8
=====

A CHIP-8 emulator whose core is verified with Verus.

- `src/machine.rs` models the machine mathematically: its state and what each
  opcode, a key press and a timer tick do to it.
- `src/cpu.rs`, `src/display.rs`, `src/keypad.rs` and `src/stack.rs` are the
  executable core; each operation is proved to do what the model says.
- `src/frontend.rs` holds the decisions of the frontend: which key changes reach
  the keypad, what one 1/60s frame runs, and the colours of the screen.
- `src/laws.rs` states and proves properties across operations, such as a
  return undoing a call or a sprite drawn twice erasing itself.
- `src/clock.rs` declares the clock reading that seeds the random generator.
- `app/` is the program: it reads the ROM, opens the window (minifb) and
  the speaker (rodio), and runs the frames.

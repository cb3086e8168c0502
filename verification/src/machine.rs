//! The machine a CHIP-8 program runs on, as a mathematical model: its state
//! and what each opcode does to it.
use vstd::prelude::*;

use crate::display::{blank_pixels, on_screen, pixel_at, Frame, WIDTH};
use crate::keypad::{key_down, keys_after};
use crate::stack::STACK_CAPACITY;

verus! {

/// Size of the addressable memory in bytes.
pub const MEMORY_SIZE: usize = 0x1000;

/// Address at which programs are loaded and execution starts.
pub const PROGRAM_START: u16 = 0x200;

/// Number of bytes in the sprite of one hexadecimal digit.
pub const FONT_BYTE_LENGTH: u16 = 5;

/// Index of the flag register VF.
pub const VF: usize = 0xF;

/// Sprites of the hexadecimal digits 0 to F, stored at 0x000 - 0x050.
pub const FONT: [u8; 80] = [
    0xF0, 0x90, 0x90, 0x90, 0xF0, // 0
    0x20, 0x60, 0x20, 0x20, 0x70, // 1
    0xF0, 0x10, 0xF0, 0x80, 0xF0, // 2
    0xF0, 0x10, 0xF0, 0x10, 0xF0, // 3
    0x90, 0x90, 0xF0, 0x10, 0x10, // 4
    0xF0, 0x80, 0xF0, 0x10, 0xF0, // 5
    0xF0, 0x80, 0xF0, 0x90, 0xF0, // 6
    0xF0, 0x10, 0x20, 0x40, 0x40, // 7
    0xF0, 0x90, 0xF0, 0x90, 0xF0, // 8
    0xF0, 0x90, 0xF0, 0x10, 0xF0, // 9
    0xF0, 0x90, 0xF0, 0x90, 0x90, // A
    0xE0, 0x90, 0xE0, 0x90, 0xE0, // B
    0xF0, 0x80, 0x80, 0x80, 0xF0, // C
    0xE0, 0x90, 0x90, 0x90, 0xE0, // D
    0xF0, 0x80, 0xF0, 0x80, 0xF0, // E
    0xF0, 0x80, 0xF0, 0x80, 0x80, // F
];

/// The whole state of a CHIP-8 machine.
#[verifier::ext_equal]
pub struct Machine {
    /// The registers V0 to VF.
    pub v: Seq<u8>,
    /// The address register I.
    pub i: u16,
    /// The program counter.
    pub pc: u16,
    /// The delay timer.
    pub dt: u8,
    /// The sound timer.
    pub st: u8,
    pub memory: Seq<u8>,
    /// Return addresses, the innermost call last.
    pub stack: Seq<u16>,
    pub display: Frame,
    /// Which keys of the keypad are held down.
    pub keys: Seq<bool>,
    /// The register that receives the next key pressed (FX0A); while there is
    /// one, execution halts.
    pub wait_for_key: Option<int>,
    /// State of the random number generator.
    pub rng: u32,
}

// ---------------------------------------------------------------- decoding

/// Which of the 16 opcode families `op` belongs to (its first hex digit).
pub open spec fn op_kind(op: u16) -> int {
    op as int / 0x1000
}

/// The register named by the second hex digit of `op`.
pub open spec fn op_x(op: u16) -> int {
    (op as int / 0x100) % 0x10
}

/// The register named by the third hex digit of `op`.
pub open spec fn op_y(op: u16) -> int {
    (op as int / 0x10) % 0x10
}

/// The last hex digit of `op`.
pub open spec fn op_n(op: u16) -> int {
    op as int % 0x10
}

/// The last two hex digits of `op`.
pub open spec fn op_nn(op: u16) -> u8 {
    (op as int % 0x100) as u8
}

/// The last three hex digits of `op`, an address.
pub open spec fn op_nnn(op: u16) -> u16 {
    (op as int % 0x1000) as u16
}

/// The memory cell that address `a` refers to: addresses wrap around memory.
pub open spec fn address(a: int) -> int {
    a % (MEMORY_SIZE as int)
}

/// Memory addresses wrap at 4KB.
pub proof fn lemma_address_mask(a: usize)
    ensures
        a & 0xFFF == address(a as int),
{
    assert(a & 0xFFF == a % 4096) by (bit_vector);
}

/// The opcode stored big-endian at `pc`.
pub open spec fn opcode_at(memory: Seq<u8>, pc: u16) -> u16 {
    (memory[address(pc as int)] as int * 0x100 + memory[address(pc + 1)] as int) as u16
}

// ---------------------------------------------------------------- helpers

/// `s` with register `r` set to `val`.
pub open spec fn set_v(s: Machine, r: int, val: u8) -> Machine {
    Machine { v: s.v.update(r, val), ..s }
}

/// `s` with the result `val` in VX, then the flag `flag` in VF.
pub open spec fn set_v_and_flag(s: Machine, x: int, val: u8, flag: bool) -> Machine {
    set_v(set_v(s, x, val), VF as int, if flag { 1u8 } else { 0u8 })
}

/// The address two bytes further on, wrapping around memory.
pub open spec fn next_pc(pc: u16) -> u16 {
    address(pc + 2) as u16
}

/// `s` with the next instruction skipped when `cond` holds.
pub open spec fn skip_next(s: Machine, cond: bool) -> Machine {
    if cond {
        Machine { pc: next_pc(s.pc), ..s }
    } else {
        s
    }
}

/// One step of the xorshift32 generator.
pub open spec fn xorshift32(r: u32) -> u32 {
    let a = r ^ (r << 13u32);
    let b = a ^ (a >> 17u32);
    b ^ (b << 5u32)
}

// ---------------------------------------------------------------- sprites

/// Bit `col` of a sprite row, counting from the most significant bit.
pub open spec fn sprite_bit(row: u8, col: int) -> bool {
    (row >> ((7 - col) as u8)) & 1u8 == 1u8
}

/// Whether the sprite of `n` rows read from `memory` at `i`, drawn with its
/// top-left corner at (vx, vy), has a set bit at (px, py). A sprite is 8
/// pixels wide; it is clipped at the screen's edges, not wrapped.
pub open spec fn sprite_covers(
    memory: Seq<u8>,
    i: u16,
    vx: int,
    vy: int,
    n: int,
    px: int,
    py: int,
) -> bool {
    &&& vx <= px < vx + 8
    &&& vy <= py < vy + n
    &&& sprite_bit(memory[address(i + (py - vy))], px - vx)
}

/// The screen after the sprite is XOR-ed onto it.
pub open spec fn drawn_pixels(
    pixels: Seq<bool>,
    memory: Seq<u8>,
    i: u16,
    vx: int,
    vy: int,
    n: int,
) -> Seq<bool> {
    Seq::new(
        pixels.len(),
        |p: int| pixels[p] != sprite_covers(memory, i, vx, vy, n, p % (WIDTH as int), p / (WIDTH as int)),
    )
}

/// Whether the sprite erases a lit pixel.
pub open spec fn sprite_collides(
    pixels: Seq<bool>,
    memory: Seq<u8>,
    i: u16,
    vx: int,
    vy: int,
    n: int,
) -> bool {
    exists|px: int, py: int|
        #![trigger sprite_covers(memory, i, vx, vy, n, px, py)]
        on_screen(px, py) && sprite_covers(memory, i, vx, vy, n, px, py) && pixel_at(pixels, px, py)
}

/// Whether any set bit of the sprite lands on the screen.
pub open spec fn sprite_visible(memory: Seq<u8>, i: u16, vx: int, vy: int, n: int) -> bool {
    exists|px: int, py: int|
        #![trigger sprite_covers(memory, i, vx, vy, n, px, py)]
        on_screen(px, py) && sprite_covers(memory, i, vx, vy, n, px, py)
}

// ---------------------------------------------------------------- opcodes

/// DXYN: draws the `n`-row sprite at I to (VX, VY); VF tells whether a lit
/// pixel was erased.
pub open spec fn draw_spec(s: Machine, x: int, y: int, n: int) -> Machine {
    let vx = s.v[x] as int;
    let vy = s.v[y] as int;
    let collided = sprite_collides(s.display.pixels, s.memory, s.i, vx, vy, n);
    Machine {
        v: s.v.update(VF as int, if collided { 1u8 } else { 0u8 }),
        display: Frame {
            pixels: drawn_pixels(s.display.pixels, s.memory, s.i, vx, vy, n),
            invalidated: s.display.invalidated || sprite_visible(s.memory, s.i, vx, vy, n),
        },
        ..s
    }
}

/// 8XYN: register arithmetic and logic; VF gets the carry, the absence of a
/// borrow, or the bit shifted out.
pub open spec fn alu_spec(s: Machine, x: int, y: int, n: int) -> Machine {
    let vx = s.v[x];
    let vy = s.v[y];
    if n == 0x0 {
        set_v(s, x, vy)
    } else if n == 0x1 {
        set_v(s, x, vx | vy)
    } else if n == 0x2 {
        set_v(s, x, vx & vy)
    } else if n == 0x3 {
        set_v(s, x, vx ^ vy)
    } else if n == 0x4 {
        set_v_and_flag(s, x, ((vx + vy) % 0x100) as u8, vx + vy > 0xFF)
    } else if n == 0x5 {
        set_v_and_flag(s, x, ((vx - vy) % 0x100) as u8, vx >= vy)
    } else if n == 0x6 {
        set_v_and_flag(s, x, vx / 2, vx % 2 == 1)
    } else if n == 0x7 {
        set_v_and_flag(s, x, ((vy - vx) % 0x100) as u8, vy >= vx)
    } else if n == 0xE {
        set_v_and_flag(s, x, ((vx * 2) % 0x100) as u8, vx >= 0x80)
    } else {
        s
    }
}

/// FX33: memory at I, I+1 and I+2 gets the hundreds, tens and units of `val`.
pub open spec fn bcd_memory(memory: Seq<u8>, i: u16, val: u8) -> Seq<u8> {
    memory.update(address(i as int), val / 100).update(address(i + 1), (val / 10) % 10).update(
        address(i + 2),
        val % 10,
    )
}

/// FX55: memory at I, I+1, ..., I+X gets V0, V1, ..., VX.
pub open spec fn stored_registers(memory: Seq<u8>, v: Seq<u8>, i: u16, x: int) -> Seq<u8> {
    Seq::new(
        memory.len(),
        |a: int|
            {
                let r = address(a - i);
                if r <= x {
                    v[r]
                } else {
                    memory[a]
                }
            },
    )
}

/// FX65: V0, V1, ..., VX get memory at I, I+1, ..., I+X.
pub open spec fn loaded_registers(memory: Seq<u8>, v: Seq<u8>, i: u16, x: int) -> Seq<u8> {
    Seq::new(v.len(), |r: int| if r <= x { memory[address(i + r)] } else { v[r] })
}

/// FXNN: timers, the address register, keys and memory transfers.
pub open spec fn misc_spec(s: Machine, x: int, nn: u8) -> Machine {
    let vx = s.v[x];
    if nn == 0x07 {
        set_v(s, x, s.dt)
    } else if nn == 0x0A {
        Machine { wait_for_key: Some(x), ..s }
    } else if nn == 0x15 {
        Machine { dt: vx, ..s }
    } else if nn == 0x18 {
        Machine { st: vx, ..s }
    } else if nn == 0x1E {
        Machine { i: ((s.i + vx) % 0x10000) as u16, ..s }
    } else if nn == 0x29 {
        Machine { i: ((vx % 0x10) * FONT_BYTE_LENGTH) as u16, ..s }
    } else if nn == 0x33 {
        Machine { memory: bcd_memory(s.memory, s.i, vx), ..s }
    } else if nn == 0x55 {
        Machine { memory: stored_registers(s.memory, s.v, s.i, x), ..s }
    } else if nn == 0x65 {
        Machine { v: loaded_registers(s.memory, s.v, s.i, x), ..s }
    } else {
        s
    }
}

/// 00EE: returns to the address on top of the stack, or to the start of the
/// program when the stack is empty.
pub open spec fn return_spec(s: Machine) -> Machine {
    if s.stack.len() == 0 {
        Machine { pc: PROGRAM_START, ..s }
    } else {
        Machine { pc: s.stack.last(), stack: s.stack.drop_last(), ..s }
    }
}

/// 2NNN: pushes the return address, when there is room for it, and jumps.
pub open spec fn call_spec(s: Machine, nnn: u16) -> Machine {
    Machine {
        stack: if s.stack.len() < STACK_CAPACITY { s.stack.push(s.pc) } else { s.stack },
        pc: nnn,
        ..s
    }
}

/// What executing `op` does to `s`.
pub open spec fn execute_spec(s: Machine, op: u16) -> Machine {
    let kind = op_kind(op);
    let x = op_x(op);
    let y = op_y(op);
    let nn = op_nn(op);
    let nnn = op_nnn(op);
    if kind == 0x0 {
        if op == 0x00E0 {
            Machine { display: Frame { pixels: blank_pixels(), invalidated: true }, ..s }
        } else if op == 0x00EE {
            return_spec(s)
        } else {
            s
        }
    } else if kind == 0x1 {
        Machine { pc: nnn, ..s }
    } else if kind == 0x2 {
        call_spec(s, nnn)
    } else if kind == 0x3 {
        skip_next(s, s.v[x] == nn)
    } else if kind == 0x4 {
        skip_next(s, s.v[x] != nn)
    } else if kind == 0x5 {
        skip_next(s, s.v[x] == s.v[y])
    } else if kind == 0x6 {
        set_v(s, x, nn)
    } else if kind == 0x7 {
        set_v(s, x, ((s.v[x] + nn) % 0x100) as u8)
    } else if kind == 0x8 {
        alu_spec(s, x, y, op_n(op))
    } else if kind == 0x9 {
        skip_next(s, s.v[x] != s.v[y])
    } else if kind == 0xA {
        Machine { i: nnn, ..s }
    } else if kind == 0xB {
        Machine { pc: address(nnn + s.v[0]) as u16, ..s }
    } else if kind == 0xC {
        let r = xorshift32(s.rng);
        Machine { v: s.v.update(x, (r as u8) & nn), rng: r, ..s }
    } else if kind == 0xD {
        draw_spec(s, x, y, op_n(op))
    } else if kind == 0xE {
        if nn == 0x9E {
            skip_next(s, key_down(s.keys, s.v[x] as int))
        } else if nn == 0xA1 {
            skip_next(s, !key_down(s.keys, s.v[x] as int))
        } else {
            s
        }
    } else {
        misc_spec(s, x, nn)
    }
}

/// One fetch-execute cycle: nothing happens while waiting for a key;
/// otherwise the opcode at PC is fetched, PC moves past it, and it executes.
pub open spec fn step_spec(s: Machine) -> Machine {
    if s.wait_for_key is Some {
        s
    } else {
        execute_spec(Machine { pc: next_pc(s.pc), ..s }, opcode_at(s.memory, s.pc))
    }
}

/// A key is pressed or released; a press completes a pending FX0A.
pub open spec fn set_key_spec(s: Machine, key: u8, pressed: bool) -> Machine {
    let s1 = Machine { keys: keys_after(s.keys, key as int, pressed), ..s };
    match s.wait_for_key {
        Some(x) if pressed => Machine { v: s.v.update(x, key), wait_for_key: None, ..s1 },
        _ => s1,
    }
}

/// The timers after one 60Hz tick: both count down to zero.
pub open spec fn ticked(s: Machine) -> Machine {
    Machine {
        dt: if s.dt > 0 { (s.dt - 1) as u8 } else { 0 },
        st: if s.st > 0 { (s.st - 1) as u8 } else { 0 },
        ..s
    }
}

/// Memory at power-on: the font sprites, then zeros.
pub open spec fn initial_memory() -> Seq<u8> {
    Seq::new(MEMORY_SIZE as nat, |a: int| if a < 80 { FONT@[a] } else { 0 })
}

/// The machine at power-on, with its random generator seeded from `seed`.
pub open spec fn initial_machine(seed: u32) -> Machine {
    Machine {
        v: Seq::new(16, |r: int| 0u8),
        i: 0,
        pc: PROGRAM_START,
        dt: 0,
        st: 0,
        memory: initial_memory(),
        stack: Seq::empty(),
        display: Frame { pixels: blank_pixels(), invalidated: true },
        keys: Seq::new(16, |k: int| false),
        wait_for_key: None,
        rng: seed | 1,
    }
}

/// Memory with `rom` copied to the program area.
pub open spec fn loaded_memory(memory: Seq<u8>, rom: Seq<u8>) -> Seq<u8> {
    Seq::new(
        memory.len(),
        |a: int|
            if PROGRAM_START <= a < PROGRAM_START + rom.len() {
                rom[a - PROGRAM_START]
            } else {
                memory[a]
            },
    )
}

/// The largest ROM that fits in memory.
pub open spec fn max_rom_len() -> int {
    MEMORY_SIZE - PROGRAM_START
}

} // verus!

//! What each opcode does, stated over the fields written out in its hex
//! digits: the register named by the second digit, the byte in the last two,
//! and so on. Each law says, in terms of the machine before and those fields,
//! what the machine is after the opcode executes.
use vstd::prelude::*;

use crate::display::{
    lemma_index_pixel, lemma_pixel_index, on_screen, pixel_at, Frame, BUFF_LENGTH,
};
use crate::machine::{
    alu_spec, bcd_memory, call_spec, execute_spec, loaded_registers, misc_spec, stored_registers, op_kind, op_n, op_nn, op_nnn, op_x, op_y,
    sprite_covers, Machine, MEMORY_SIZE,
};

verus! {

/// The hex digits of an opcode are the fields it is built from.
proof fn lemma_fields(op: u16, k: int, x: int, y: int, n: int)
    requires
        0 <= k < 16,
        0 <= x < 16,
        0 <= y < 16,
        0 <= n < 16,
        op == k * 0x1000 + x * 0x100 + y * 0x10 + n,
    ensures
        op_kind(op) == k,
        op_x(op) == x,
        op_y(op) == y,
        op_n(op) == n,
        op_nn(op) == y * 0x10 + n,
        op_nnn(op) == x * 0x100 + y * 0x10 + n,
{
}

/// 3XNN skips the next instruction exactly when VX equals NN; 4XNN exactly
/// when it does not. Nothing else changes, and no other register matters.
#[verifier::rlimit(40)]
#[verifier::spinoff_prover]
pub proof fn law_skip_on_byte(s: Machine, x: int, nn: u8, op3: u16, op4: u16)
    requires
        s.v.len() == 16,
        0 <= x < 16,
        op3 == 0x3000 + x * 0x100 + nn,
        op4 == 0x4000 + x * 0x100 + nn,
    ensures
        execute_spec(s, op3) == (Machine {
            pc: if s.v[x] == nn { ((s.pc + 2) % 0x1000) as u16 } else { s.pc },
            ..s
        }),
        execute_spec(s, op4) == (Machine {
            pc: if s.v[x] != nn { ((s.pc + 2) % 0x1000) as u16 } else { s.pc },
            ..s
        }),
{
    lemma_fields(op3, 3, x, nn as int / 16, nn as int % 16);
    lemma_fields(op4, 4, x, nn as int / 16, nn as int % 16);
}

/// 5XY0 skips the next instruction exactly when VX equals VY; 9XY0 exactly
/// when they differ. Nothing else changes.
#[verifier::rlimit(40)]
#[verifier::spinoff_prover]
pub proof fn law_skip_on_registers(s: Machine, x: int, y: int, op5: u16, op9: u16)
    requires
        s.v.len() == 16,
        0 <= x < 16,
        0 <= y < 16,
        op5 == 0x5000 + x * 0x100 + y * 0x10,
        op9 == 0x9000 + x * 0x100 + y * 0x10,
    ensures
        execute_spec(s, op5) == (Machine {
            pc: if s.v[x] == s.v[y] { ((s.pc + 2) % 0x1000) as u16 } else { s.pc },
            ..s
        }),
        execute_spec(s, op9) == (Machine {
            pc: if s.v[x] != s.v[y] { ((s.pc + 2) % 0x1000) as u16 } else { s.pc },
            ..s
        }),
{
    lemma_fields(op5, 5, x, y, 0);
    lemma_fields(op9, 9, x, y, 0);
}

/// EX9E skips the next instruction exactly when the key named by VX is held;
/// EXA1 exactly when it is not. VX past the keypad names no key, which is
/// never held.
#[verifier::rlimit(40)]
#[verifier::spinoff_prover]
pub proof fn law_skip_on_key(s: Machine, x: int, op9e: u16, opa1: u16)
    requires
        s.v.len() == 16,
        s.keys.len() == 16,
        0 <= x < 16,
        op9e == 0xE09E + x * 0x100,
        opa1 == 0xE0A1 + x * 0x100,
    ensures
        ({
            let held = s.v[x] < 16 && s.keys[s.v[x] as int];
            &&& execute_spec(s, op9e) == (Machine {
                pc: if held { ((s.pc + 2) % 0x1000) as u16 } else { s.pc },
                ..s
            })
            &&& execute_spec(s, opa1) == (Machine {
                pc: if !held { ((s.pc + 2) % 0x1000) as u16 } else { s.pc },
                ..s
            })
        }),
{
    lemma_fields(op9e, 0xE, x, 9, 0xE);
    lemma_fields(opa1, 0xE, x, 0xA, 1);
}

/// 1NNN jumps to NNN; 2NNN pushes the address of the next instruction, when
/// the stack has room, and jumps to NNN; ANNN sets I to NNN; BNNN jumps to
/// NNN + V0, wrapping around memory.
#[verifier::rlimit(40)]
#[verifier::spinoff_prover]
pub proof fn law_jumps(s: Machine, nnn: u16, op1: u16, op2: u16, opa: u16, opb: u16)
    requires
        s.v.len() == 16,
        nnn < 0x1000,
        op1 == 0x1000 + nnn,
        op2 == 0x2000 + nnn,
        opa == 0xA000 + nnn,
        opb == 0xB000 + nnn,
    ensures
        execute_spec(s, op1) == (Machine { pc: nnn, ..s }),
        execute_spec(s, op2) == (Machine {
            pc: nnn,
            stack: if s.stack.len() < 16 { s.stack.push(s.pc) } else { s.stack },
            ..s
        }),
        execute_spec(s, opa) == (Machine { i: nnn, ..s }),
        execute_spec(s, opb) == (Machine { pc: ((nnn + s.v[0]) % 0x1000) as u16, ..s }),
{
    lemma_jump(s, nnn, op1);
    lemma_call(s, nnn, op2);
    lemma_set_index(s, nnn, opa);
    lemma_jump_offset(s, nnn, opb);
}

#[verifier::rlimit(40)]
#[verifier::spinoff_prover]
proof fn lemma_jump(s: Machine, nnn: u16, op: u16)
    requires
        nnn < 0x1000,
        op == 0x1000 + nnn,
    ensures
        execute_spec(s, op) == (Machine { pc: nnn, ..s }),
{
    lemma_fields(op, 1, nnn as int / 0x100, (nnn as int / 0x10) % 0x10, nnn as int % 0x10);
}

#[verifier::rlimit(40)]
#[verifier::spinoff_prover]
proof fn lemma_call(s: Machine, nnn: u16, op: u16)
    requires
        nnn < 0x1000,
        op == 0x2000 + nnn,
    ensures
        execute_spec(s, op) == call_spec(s, nnn),
{
    lemma_fields(op, 2, nnn as int / 0x100, (nnn as int / 0x10) % 0x10, nnn as int % 0x10);
}

#[verifier::rlimit(40)]
#[verifier::spinoff_prover]
proof fn lemma_set_index(s: Machine, nnn: u16, op: u16)
    requires
        nnn < 0x1000,
        op == 0xA000 + nnn,
    ensures
        execute_spec(s, op) == (Machine { i: nnn, ..s }),
{
    lemma_fields(op, 0xA, nnn as int / 0x100, (nnn as int / 0x10) % 0x10, nnn as int % 0x10);
}

#[verifier::rlimit(40)]
#[verifier::spinoff_prover]
proof fn lemma_jump_offset(s: Machine, nnn: u16, op: u16)
    requires
        nnn < 0x1000,
        op == 0xB000 + nnn,
    ensures
        execute_spec(s, op) == (Machine { pc: ((nnn + s.v[0]) % 0x1000) as u16, ..s }),
{
    lemma_fields(op, 0xB, nnn as int / 0x100, (nnn as int / 0x10) % 0x10, nnn as int % 0x10);
}

/// 00E0 unsets every pixel and marks the screen for redrawing; 00EE returns
/// to the address on top of the stack and pops it, or restarts the program
/// when the stack is empty.
#[verifier::rlimit(40)]
#[verifier::spinoff_prover]
pub proof fn law_clear_and_return(s: Machine)
    ensures
        execute_spec(s, 0x00E0) == (Machine {
            display: Frame { pixels: Seq::new(BUFF_LENGTH as nat, |p: int| false), invalidated: true },
            ..s
        }),
        s.stack.len() == 0 ==> execute_spec(s, 0x00EE) == (Machine { pc: 0x200, ..s }),
        s.stack.len() > 0 ==> execute_spec(s, 0x00EE) == (Machine {
            pc: s.stack[s.stack.len() - 1],
            stack: s.stack.subrange(0, s.stack.len() - 1),
            ..s
        }),
{
    lemma_fields(0x00E0, 0, 0, 0xE, 0);
    lemma_fields(0x00EE, 0, 0, 0xE, 0xE);
}

/// 6XNN sets VX to NN; 7XNN adds NN to VX, wrapping at 256, and leaves VF
/// alone.
#[verifier::rlimit(40)]
#[verifier::spinoff_prover]
pub proof fn law_set_and_add_byte(s: Machine, x: int, nn: u8, op6: u16, op7: u16)
    requires
        s.v.len() == 16,
        0 <= x < 16,
        op6 == 0x6000 + x * 0x100 + nn,
        op7 == 0x7000 + x * 0x100 + nn,
    ensures
        execute_spec(s, op6) == (Machine { v: s.v.update(x, nn), ..s }),
        execute_spec(s, op7) == (Machine { v: s.v.update(x, ((s.v[x] + nn) % 0x100) as u8), ..s }),
{
    lemma_fields(op6, 6, x, nn as int / 16, nn as int % 16);
    lemma_fields(op7, 7, x, nn as int / 16, nn as int % 16);
}

/// VX with `val` in it, then VF with 1 when `flag` holds and 0 otherwise.
pub open spec fn result_and_flag(v: Seq<u8>, x: int, val: int, flag: bool) -> Seq<u8> {
    v.update(x, val as u8).update(0xF, if flag { 1u8 } else { 0u8 })
}

#[verifier::rlimit(40)]
#[verifier::spinoff_prover]
proof fn lemma_alu_cases(s: Machine, x: int, y: int, n: int)
    requires
        s.v.len() == 16,
        0 <= x < 16,
        0 <= y < 16,
        0 <= n < 16,
    ensures
        ({
            let vx = s.v[x];
            let vy = s.v[y];
            let r = alu_spec(s, x, y, n);
            &&& n == 0 ==> r == (Machine { v: s.v.update(x, vy), ..s })
            &&& n == 1 ==> r == (Machine { v: s.v.update(x, vx | vy), ..s })
            &&& n == 2 ==> r == (Machine { v: s.v.update(x, vx & vy), ..s })
            &&& n == 3 ==> r == (Machine { v: s.v.update(x, vx ^ vy), ..s })
            &&& n == 4 ==> r == (Machine {
                v: result_and_flag(s.v, x, (vx + vy) % 0x100, vx + vy >= 0x100),
                ..s
            })
            &&& n == 5 ==> r == (Machine {
                v: result_and_flag(s.v, x, (vx - vy + 0x100) % 0x100, vx >= vy),
                ..s
            })
            &&& n == 6 ==> r == (Machine { v: result_and_flag(s.v, x, vx as int / 2, vx % 2 == 1), ..s })
            &&& n == 7 ==> r == (Machine {
                v: result_and_flag(s.v, x, (vy - vx + 0x100) % 0x100, vy >= vx),
                ..s
            })
            &&& n == 0xE ==> r == (Machine {
                v: result_and_flag(s.v, x, (vx * 2) % 0x100, vx / 0x80 == 1),
                ..s
            })
            &&& !(n <= 7 || n == 0xE) ==> r == s
        }),
{
}

/// 8XYN computes into VX from VX and VY: a copy, OR, AND, XOR, a sum with
/// its carry in VF, differences with "no borrow" in VF, and shifts by one
/// with the bit shifted out in VF. The VF result comes last, so it wins when
/// X is F. Other values of N do nothing.
#[verifier::rlimit(40)]
#[verifier::spinoff_prover]
pub proof fn law_register_arithmetic(s: Machine, x: int, y: int, n: int, op: u16)
    requires
        s.v.len() == 16,
        0 <= x < 16,
        0 <= y < 16,
        0 <= n < 16,
        op == 0x8000 + x * 0x100 + y * 0x10 + n,
    ensures
        ({
            let vx = s.v[x];
            let vy = s.v[y];
            let r = execute_spec(s, op);
            &&& n == 0 ==> r == (Machine { v: s.v.update(x, vy), ..s })
            &&& n == 1 ==> r == (Machine { v: s.v.update(x, vx | vy), ..s })
            &&& n == 2 ==> r == (Machine { v: s.v.update(x, vx & vy), ..s })
            &&& n == 3 ==> r == (Machine { v: s.v.update(x, vx ^ vy), ..s })
            &&& n == 4 ==> r == (Machine {
                v: result_and_flag(s.v, x, (vx + vy) % 0x100, vx + vy >= 0x100),
                ..s
            })
            &&& n == 5 ==> r == (Machine {
                v: result_and_flag(s.v, x, (vx - vy + 0x100) % 0x100, vx >= vy),
                ..s
            })
            &&& n == 6 ==> r == (Machine { v: result_and_flag(s.v, x, vx as int / 2, vx % 2 == 1), ..s })
            &&& n == 7 ==> r == (Machine {
                v: result_and_flag(s.v, x, (vy - vx + 0x100) % 0x100, vy >= vx),
                ..s
            })
            &&& n == 0xE ==> r == (Machine {
                v: result_and_flag(s.v, x, (vx * 2) % 0x100, vx / 0x80 == 1),
                ..s
            })
            &&& !(n <= 7 || n == 0xE) ==> r == s
        }),
{
    lemma_alu_dispatch(s, x, y, n, op);
    lemma_alu_cases(s, x, y, n);
}

#[verifier::rlimit(40)]
#[verifier::spinoff_prover]
proof fn lemma_alu_dispatch(s: Machine, x: int, y: int, n: int, op: u16)
    requires
        0 <= x < 16,
        0 <= y < 16,
        0 <= n < 16,
        op == 0x8000 + x * 0x100 + y * 0x10 + n,
    ensures
        execute_spec(s, op) == alu_spec(s, x, y, n),
{
    lemma_fields(op, 8, x, y, n);
}

/// The next state of the xorshift32 generator, written out.
pub open spec fn next_random(r: u32) -> u32 {
    let a = r ^ (r << 13u32);
    let b = a ^ (a >> 17u32);
    b ^ (b << 5u32)
}

/// CXNN advances the random generator and puts its low byte, masked with NN,
/// in VX.
#[verifier::rlimit(40)]
#[verifier::spinoff_prover]
pub proof fn law_random_byte(s: Machine, x: int, nn: u8, op: u16)
    requires
        s.v.len() == 16,
        0 <= x < 16,
        op == 0xC000 + x * 0x100 + nn,
    ensures
        execute_spec(s, op) == (Machine {
            v: s.v.update(x, (next_random(s.rng) as u8) & nn),
            rng: next_random(s.rng),
            ..s
        }),
{
    lemma_fields(op, 0xC, x, nn as int / 16, nn as int % 16);
}

/// FX07, FX15 and FX18 copy between VX and the delay and sound timers; FX1E
/// adds VX to I, wrapping at 16 bits; FX29 points I at the 5-byte font sprite
/// of the low hex digit of VX.
#[verifier::rlimit(40)]
#[verifier::spinoff_prover]
pub proof fn law_timers_and_index(s: Machine, x: int, ops: Seq<u16>)
    requires
        s.v.len() == 16,
        0 <= x < 16,
        ops.len() == 5,
        ops[0] == 0xF007 + x * 0x100,
        ops[1] == 0xF015 + x * 0x100,
        ops[2] == 0xF018 + x * 0x100,
        ops[3] == 0xF01E + x * 0x100,
        ops[4] == 0xF029 + x * 0x100,
    ensures
        execute_spec(s, ops[0]) == (Machine { v: s.v.update(x, s.dt), ..s }),
        execute_spec(s, ops[1]) == (Machine { dt: s.v[x], ..s }),
        execute_spec(s, ops[2]) == (Machine { st: s.v[x], ..s }),
        execute_spec(s, ops[3]) == (Machine { i: ((s.i + s.v[x]) % 0x10000) as u16, ..s }),
        execute_spec(s, ops[4]) == (Machine { i: ((s.v[x] % 0x10) * 5) as u16, ..s }),
{
    lemma_fields(ops[0], 0xF, x, 0, 7);
    lemma_fields(ops[1], 0xF, x, 1, 5);
    lemma_fields(ops[2], 0xF, x, 1, 8);
    lemma_fields(ops[3], 0xF, x, 1, 0xE);
    lemma_fields(ops[4], 0xF, x, 2, 9);
}

/// FX33 writes the decimal digits of VX to memory at I, I+1 and I+2 (wrapping
/// around memory): each is below ten, together they make up VX, and no other
/// byte and no register changes.
#[verifier::rlimit(40)]
#[verifier::spinoff_prover]
pub proof fn law_decimal_digits(s: Machine, x: int, op: u16)
    requires
        s.v.len() == 16,
        s.memory.len() == MEMORY_SIZE,
        0 <= x < 16,
        op == 0xF033 + x * 0x100,
    ensures
        ({
            let r = execute_spec(s, op);
            let (a0, a1, a2) = (s.i as int % 0x1000, (s.i + 1) % 0x1000, (s.i + 2) % 0x1000);
            &&& r == (Machine { memory: r.memory, ..s })
            &&& r.memory.len() == MEMORY_SIZE
            &&& r.memory[a0] < 10 && r.memory[a1] < 10 && r.memory[a2] < 10
            &&& 100 * r.memory[a0] + 10 * r.memory[a1] + r.memory[a2] == s.v[x]
            &&& forall|a: int|
                0 <= a < MEMORY_SIZE && a != a0 && a != a1 && a != a2 ==> #[trigger] r.memory[a]
                    == s.memory[a]
        }),
{
    lemma_misc_dispatch(s, x, 0x33, op);
    lemma_digits(s.memory, s.i, s.v[x]);
}

proof fn lemma_digits(memory: Seq<u8>, i: u16, val: u8)
    requires
        memory.len() == MEMORY_SIZE,
    ensures
        ({
            let m = bcd_memory(memory, i, val);
            let (a0, a1, a2) = (i as int % 0x1000, (i + 1) % 0x1000, (i + 2) % 0x1000);
            &&& m.len() == MEMORY_SIZE
            &&& m[a0] < 10 && m[a1] < 10 && m[a2] < 10
            &&& 100 * m[a0] + 10 * m[a1] + m[a2] == val
            &&& forall|a: int|
                0 <= a < MEMORY_SIZE && a != a0 && a != a1 && a != a2 ==> #[trigger] m[a] == memory[a]
        }),
{
}

#[verifier::rlimit(40)]
#[verifier::spinoff_prover]
proof fn lemma_misc_dispatch(s: Machine, x: int, nn: u8, op: u16)
    requires
        0 <= x < 16,
        op == 0xF000 + x * 0x100 + nn,
    ensures
        execute_spec(s, op) == misc_spec(s, x, nn),
{
    lemma_fields(op, 0xF, x, nn as int / 0x10, nn as int % 0x10);
}

/// FX55 writes V0 to VX to memory at I, I+1, ..., I+X (wrapping around
/// memory) and changes nothing else; FX65 reads them back into V0 to VX and
/// changes nothing else. Neither moves I.
#[verifier::rlimit(40)]
#[verifier::spinoff_prover]
pub proof fn law_register_transfers(s: Machine, x: int, op55: u16, op65: u16)
    requires
        s.v.len() == 16,
        s.memory.len() == MEMORY_SIZE,
        0 <= x < 16,
        op55 == 0xF055 + x * 0x100,
        op65 == 0xF065 + x * 0x100,
    ensures
        ({
            let w = execute_spec(s, op55);
            let l = execute_spec(s, op65);
            &&& w == (Machine { memory: w.memory, ..s })
            &&& w.memory.len() == MEMORY_SIZE
            &&& forall|r: int| 0 <= r <= x ==> #[trigger] w.memory[(s.i + r) % 0x1000] == s.v[r]
            &&& forall|a: int|
                0 <= a < MEMORY_SIZE && (forall|r: int| 0 <= r <= x ==> a != #[trigger] ((s.i + r) % 0x1000))
                    ==> #[trigger] w.memory[a] == s.memory[a]
            &&& l == (Machine { v: l.v, ..s })
            &&& l.v.len() == 16
            &&& forall|r: int|
                0 <= r < 16 ==> #[trigger] l.v[r] == if r <= x {
                    s.memory[(s.i + r) % 0x1000]
                } else {
                    s.v[r]
                }
        }),
{
    lemma_misc_dispatch(s, x, 0x55, op55);
    lemma_misc_dispatch(s, x, 0x65, op65);
    lemma_transfers(s.memory, s.v, s.i, x);
}

proof fn lemma_transfers(memory: Seq<u8>, v: Seq<u8>, i: u16, x: int)
    requires
        v.len() == 16,
        memory.len() == MEMORY_SIZE,
        0 <= x < 16,
    ensures
        ({
            let w = stored_registers(memory, v, i, x);
            let l = loaded_registers(memory, v, i, x);
            &&& w.len() == MEMORY_SIZE
            &&& forall|r: int| 0 <= r <= x ==> #[trigger] w[(i + r) % 0x1000] == v[r]
            &&& forall|a: int|
                0 <= a < MEMORY_SIZE && (forall|r: int| 0 <= r <= x ==> a != #[trigger] ((i + r) % 0x1000))
                    ==> #[trigger] w[a] == memory[a]
            &&& l.len() == 16
            &&& forall|r: int|
                0 <= r < 16 ==> #[trigger] l[r] == if r <= x {
                    memory[(i + r) % 0x1000]
                } else {
                    v[r]
                }
        }),
{
    let w = stored_registers(memory, v, i, x);
    assert forall|r: int| 0 <= r <= x implies #[trigger] w[(i + r) % 0x1000] == v[r] by {
        assert(((((i + r) % 0x1000) - i) % 0x1000) == r);
    }
    assert forall|a: int|
        0 <= a < MEMORY_SIZE && (forall|r: int| 0 <= r <= x ==> a != #[trigger] ((i + r) % 0x1000))
        implies #[trigger] w[a] == memory[a] by {
        let r = (a - i) % 0x1000;
        if r <= x {
            assert(a == (i + r) % 0x1000);
        }
    }
}

/// Whether the sprite of `n` rows at I, drawn at (vx, vy), has a set bit at
/// (px, py): a sprite is 8 pixels wide, its rows are the bytes from I on
/// (wrapping around memory), and a row's most significant bit is its left.
pub open spec fn sprite_has(memory: Seq<u8>, i: u16, vx: int, vy: int, n: int, px: int, py: int) -> bool {
    &&& vx <= px < vx + 8
    &&& vy <= py < vy + n
    &&& (memory[(i + (py - vy)) % 0x1000] >> ((7 - (px - vx)) as u8)) & 1u8 == 1u8
}

/// DXYN XORs the N-row sprite at I onto the screen at (VX, VY): a pixel on the
/// screen is toggled exactly when the sprite has a set bit there, so nothing
/// outside the 8 x N box changes, and the sprite is clipped at the edges. VF
/// becomes 1 exactly when a lit pixel was toggled off, and 0 otherwise; no
/// other register and no memory changes; the screen is marked for redrawing
/// when a pixel on it toggled.
#[verifier::rlimit(40)]
#[verifier::spinoff_prover]
pub proof fn law_draw(s: Machine, x: int, y: int, n: int, op: u16)
    requires
        s.v.len() == 16,
        s.memory.len() == MEMORY_SIZE,
        s.display.pixels.len() == BUFF_LENGTH,
        0 <= x < 16,
        0 <= y < 16,
        0 <= n < 16,
        op == 0xD000 + x * 0x100 + y * 0x10 + n,
    ensures
        ({
            let r = execute_spec(s, op);
            let vx = s.v[x] as int;
            let vy = s.v[y] as int;
            &&& r == (Machine { v: r.v, display: r.display, ..s })
            &&& r.display.pixels.len() == BUFF_LENGTH
            &&& forall|px: int, py: int|
                on_screen(px, py) ==> #[trigger] pixel_at(r.display.pixels, px, py) == (pixel_at(
                    s.display.pixels,
                    px,
                    py,
                ) != sprite_has(s.memory, s.i, vx, vy, n, px, py))
            &&& r.v.len() == 16
            &&& forall|j: int| 0 <= j < 15 ==> #[trigger] r.v[j] == s.v[j]
            &&& r.v[15] == if exists|px: int, py: int|
                on_screen(px, py) && #[trigger] sprite_has(s.memory, s.i, vx, vy, n, px, py)
                    && pixel_at(s.display.pixels, px, py) {
                1u8
            } else {
                0u8
            }
            &&& r.display.invalidated == (s.display.invalidated || exists|px: int, py: int|
                on_screen(px, py) && #[trigger] sprite_has(s.memory, s.i, vx, vy, n, px, py))
        }),
{
    lemma_fields(op, 0xD, x, y, n);
    let r = execute_spec(s, op);
    let vx = s.v[x] as int;
    let vy = s.v[y] as int;
    assert forall|px: int, py: int|
        sprite_has(s.memory, s.i, vx, vy, n, px, py) == sprite_covers(
            s.memory,
            s.i,
            vx,
            vy,
            n,
            px,
            py,
        ) by {}
    assert forall|px: int, py: int| on_screen(px, py) implies #[trigger] pixel_at(
        r.display.pixels,
        px,
        py,
    ) == (pixel_at(s.display.pixels, px, py) != sprite_has(s.memory, s.i, vx, vy, n, px, py)) by {
        let p = px + py * 64;
        lemma_pixel_index(px, py, px, py);
        lemma_index_pixel(p);
        lemma_pixel_index(px, py, p % 64, p / 64);
    }
}

} // verus!

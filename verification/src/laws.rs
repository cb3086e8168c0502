//! Properties that hold across the operations of the machine.
use vstd::prelude::*;

use crate::display::{
    after_ops, changed_since_take, changes_screen, flipped, no_take_from, on_screen, pixel_at,
    DisplayOp, Frame, BUFF_LENGTH,
};
use crate::keypad::{key_down, keys_after};
use crate::machine::{
    address, alu_spec, bcd_memory, call_spec, draw_spec, execute_spec,
    loaded_registers, return_spec, set_key_spec, sprite_covers, sprite_visible, step_spec,
    stored_registers, xorshift32, Machine, MEMORY_SIZE, VF,
};
use crate::frontend::{colors, frame_spec, report_changes};
use crate::machine::{
    initial_machine, loaded_memory, misc_spec, op_kind, op_nn, op_x, ticked, FONT,
};
use crate::stack::STACK_CAPACITY;

verus! {

/// A value pushed onto a stack that has room is the one popped next, and
/// popping it gives back the stack as it was.
pub proof fn law_pop_returns_pushed(stack: Seq<u16>, val: u16)
    requires
        stack.len() < STACK_CAPACITY,
    ensures
        stack.push(val).len() <= STACK_CAPACITY,
        stack.push(val).last() == val,
        stack.push(val).drop_last() == stack,
{
    assert(stack.push(val).drop_last() =~= stack);
}

/// Toggling the same pixel twice leaves the screen as it was.
pub proof fn law_flip_twice(pixels: Seq<bool>, x: int, y: int)
    requires
        pixels.len() == BUFF_LENGTH,
    ensures
        flipped(flipped(pixels, x, y), x, y) == pixels,
{
    assert(flipped(flipped(pixels, x, y), x, y) =~= pixels);
}

/// After a pixel on the screen is toggled, reading it gives the opposite of
/// what it read before.
pub proof fn law_flip_toggles(pixels: Seq<bool>, x: int, y: int)
    requires
        pixels.len() == BUFF_LENGTH,
        on_screen(x, y),
    ensures
        pixel_at(flipped(pixels, x, y), x, y) == !pixel_at(pixels, x, y),
{
    crate::display::lemma_pixel_after_flip(pixels, x, y, x, y);
}

/// A key reads as it was last set, keys past the keypad always read as
/// released, and setting one key leaves the others as they were.
pub proof fn law_key_reads_as_set(keys: Seq<bool>, key: int, pressed: bool, other: int)
    requires
        keys.len() == 16,
        other != key,
    ensures
        0 <= key < 16 ==> key_down(keys_after(keys, key, pressed), key) == pressed,
        !(0 <= key < 16) ==> !key_down(keys_after(keys, key, pressed), key),
        key_down(keys_after(keys, key, pressed), other) == key_down(keys, other),
{
}

/// The random generator, seeded nonzero, never reaches zero, so it never gets
/// stuck.
pub proof fn law_random_never_zero(r: u32)
    requires
        r != 0,
    ensures
        xorshift32(r) != 0,
{
    let a = r ^ (r << 13u32);
    let b = a ^ (a >> 17u32);
    assert(r != 0 ==> r ^ (r << 13u32) != 0) by (bit_vector);
    assert(a != 0 ==> a ^ (a >> 17u32) != 0) by (bit_vector);
    assert(b != 0 ==> b ^ (b << 5u32) != 0) by (bit_vector);
}

/// A machine code routine (0NNN other than 00E0 and 00EE) is skipped: it
/// changes nothing, so stepping over it only moves past it.
#[verifier::rlimit(40)]
#[verifier::spinoff_prover]
pub proof fn law_machine_routine_skipped(s: Machine, op: u16)
    requires
        op < 0x1000,
        op != 0x00E0,
        op != 0x00EE,
    ensures
        execute_spec(s, op) == s,
{
}

/// While an FX0A waits for a key, stepping does nothing.
#[verifier::rlimit(40)]
#[verifier::spinoff_prover]
pub proof fn law_halted_while_waiting(s: Machine)
    requires
        s.wait_for_key is Some,
    ensures
        step_spec(s) == s,
{
}

/// Pressing a key while an FX0A waits stores the key in its register and
/// resumes execution; releasing a key does not.
pub proof fn law_key_press_resumes(s: Machine, key: u8, pressed: bool)
    requires
        s.v.len() == 16,
        s.wait_for_key matches Some(x) && 0 <= x < 16,
    ensures
        pressed ==> set_key_spec(s, key, pressed).wait_for_key is None,
        pressed ==> set_key_spec(s, key, pressed).v[s.wait_for_key->0] == key,
        !pressed ==> set_key_spec(s, key, pressed).wait_for_key == s.wait_for_key,
        !pressed ==> set_key_spec(s, key, pressed).v == s.v,
{
}

/// A return undoes a call when the stack has room for the return address: the
/// program counter and the stack are as they were before the call.
pub proof fn law_return_undoes_call(s: Machine, target: u16)
    requires
        s.stack.len() < STACK_CAPACITY,
    ensures
        return_spec(call_spec(s, target)) == s,
{
    assert(s.stack.push(s.pc).drop_last() =~= s.stack);
    assert(return_spec(call_spec(s, target)) =~= s);
}

/// The program counter and every return address on the stack lie in memory.
pub open spec fn addresses_in_memory(s: Machine) -> bool {
    &&& s.pc < MEMORY_SIZE
    &&& forall|k: int| 0 <= k < s.stack.len() ==> #[trigger] s.stack[k] < MEMORY_SIZE
}

/// Addresses wrap instead of overflowing: executing any opcode keeps the
/// program counter and the return addresses inside memory.
#[verifier::rlimit(40)]
#[verifier::spinoff_prover]
pub proof fn law_execute_keeps_addresses_in_memory(s: Machine, op: u16)
    requires
        addresses_in_memory(s),
        s.v.len() == 16,
    ensures
        addresses_in_memory(execute_spec(s, op)),
{
    let r = execute_spec(s, op);
    assert forall|k: int| 0 <= k < r.stack.len() implies #[trigger] r.stack[k] < MEMORY_SIZE by {
        if k < s.stack.len() {
            assert(r.stack[k] == s.stack[k]);
        }
    }
}

/// Stepping keeps the program counter and the return addresses inside memory.
#[verifier::rlimit(40)]
#[verifier::spinoff_prover]
pub proof fn law_step_keeps_addresses_in_memory(s: Machine)
    requires
        addresses_in_memory(s),
        s.v.len() == 16,
    ensures
        addresses_in_memory(step_spec(s)),
{
    if s.wait_for_key is None {
        law_execute_keeps_addresses_in_memory(
            Machine { pc: crate::machine::next_pc(s.pc), ..s },
            crate::machine::opcode_at(s.memory, s.pc),
        );
    }
}

/// FX33 stores the decimal digits of VX: each is below ten and together they
/// make up VX.
pub proof fn law_bcd_digits(memory: Seq<u8>, i: u16, val: u8)
    requires
        memory.len() == MEMORY_SIZE,
    ensures
        ({
            let m = bcd_memory(memory, i, val);
            let (d0, d1, d2) = (
                m[address(i as int)],
                m[address(i + 1)],
                m[address(i + 2)],
            );
            d0 < 10 && d1 < 10 && d2 < 10 && 100 * d0 + 10 * d1 + d2 == val
        }),
{
}

/// FX65 after FX55 with the same I and X gives back V0 to VX.
pub proof fn law_load_after_store(memory: Seq<u8>, v: Seq<u8>, i: u16, x: int)
    requires
        memory.len() == MEMORY_SIZE,
        v.len() == 16,
        0 <= x < 16,
    ensures
        loaded_registers(stored_registers(memory, v, i, x), v, i, x) == v,
{
    let m = stored_registers(memory, v, i, x);
    assert forall|r: int| 0 <= r <= x implies #[trigger] m[address(i + r)] == v[r] by {
        assert(address(address(i + r) - i) == r);
    }
    assert(loaded_registers(m, v, i, x) =~= v);
}

/// 8XY4 adds with the carry in VF: VX + VY == new VX + 256 * VF.
pub proof fn law_add_carry(s: Machine, x: int, y: int)
    requires
        s.v.len() == 16,
        0 <= x < 15,
        0 <= y < 16,
    ensures
        s.v[x] + s.v[y] == alu_spec(s, x, y, 4).v[x] + 256 * alu_spec(s, x, y, 4).v[VF as int],
{
}

/// 8XY5 and 8XY7 subtract with the absence of a borrow in VF:
/// VX - VY (8XY5) or VY - VX (8XY7) == new VX - 256 * (1 - VF); equal
/// operands borrow nothing.
pub proof fn law_sub_borrow(s: Machine, x: int, y: int)
    requires
        s.v.len() == 16,
        0 <= x < 15,
        0 <= y < 16,
    ensures
        s.v[x] - s.v[y] == alu_spec(s, x, y, 5).v[x] - 256 * (1 - alu_spec(s, x, y, 5).v[VF as int]),
        s.v[x] == s.v[y] ==> alu_spec(s, x, y, 5).v[VF as int] == 1,
        s.v[y] - s.v[x] == alu_spec(s, x, y, 7).v[x] - 256 * (1 - alu_spec(s, x, y, 7).v[VF as int]),
        s.v[x] == s.v[y] ==> alu_spec(s, x, y, 7).v[VF as int] == 1,
{
}

/// 8XY6 and 8XYE put the bit shifted out in VF, so no bit is lost:
/// VX == 2 * new VX + VF after a right shift, and
/// 2 * VX == new VX + 256 * VF after a left shift.
pub proof fn law_shift_out_bit(s: Machine, x: int, y: int)
    requires
        s.v.len() == 16,
        0 <= x < 15,
        0 <= y < 16,
    ensures
        s.v[x] == 2 * alu_spec(s, x, y, 6).v[x] + alu_spec(s, x, y, 6).v[VF as int],
        2 * s.v[x] == alu_spec(s, x, y, 0xE).v[x] + 256 * alu_spec(s, x, y, 0xE).v[VF as int],
{
}

/// Drawing the same sprite twice erases it: the screen is as it was, provided
/// neither coordinate register is VF, which the first drawing overwrites.
pub proof fn law_draw_twice_erases(s: Machine, x: int, y: int, n: int)
    requires
        s.v.len() == 16,
        s.display.pixels.len() == BUFF_LENGTH,
        0 <= x < 15,
        0 <= y < 15,
    ensures
        draw_spec(draw_spec(s, x, y, n), x, y, n).display.pixels == s.display.pixels,
{
    let s1 = draw_spec(s, x, y, n);
    assert(s1.v[x] == s.v[x] && s1.v[y] == s.v[y]);
    assert(draw_spec(s1, x, y, n).display.pixels =~= s.display.pixels);
}

/// On a blank screen, a sprite with a set bit on the screen does not collide
/// when first drawn, and collides when drawn again over itself.
pub proof fn law_redraw_collides(s: Machine, x: int, y: int, n: int)
    requires
        s.v.len() == 16,
        s.display.pixels == crate::display::blank_pixels(),
        0 <= x < 15,
        0 <= y < 15,
        sprite_visible(s.memory, s.i, s.v[x] as int, s.v[y] as int, n),
    ensures
        draw_spec(s, x, y, n).v[VF as int] == 0,
        draw_spec(draw_spec(s, x, y, n), x, y, n).v[VF as int] == 1,
{
    let s1 = draw_spec(s, x, y, n);
    let (vx, vy) = (s.v[x] as int, s.v[y] as int);
    assert(s1.v[x] == s.v[x] && s1.v[y] == s.v[y]);
    let (wx, wy) = choose|px: int, py: int|
        #![trigger sprite_covers(s.memory, s.i, vx, vy, n, px, py)]
        on_screen(px, py) && sprite_covers(s.memory, s.i, vx, vy, n, px, py);
    crate::display::lemma_index_pixel(wx + wy * 64);
    assert(pixel_at(s1.display.pixels, wx, wy));
    assert(sprite_covers(s1.memory, s1.i, vx, vy, n, wx, wy));
}

/// Only key changes reach the machine: reading the same keyboard again
/// reports nothing.
pub proof fn law_unchanged_keys_report_nothing(s: Machine, keys: Seq<bool>, k: nat)
    ensures
        report_changes(s, keys, keys, k) == s,
    decreases k,
{
    if k > 0 {
        law_unchanged_keys_report_nothing(s, keys, (k - 1) as nat);
    }
}

/// The redraw flag reports exactly whether the screen changed: after any
/// sequence of clears, flips and takes, it is set if and only if a clear or an
/// on-screen flip came after the last take (or, with no take at all, the frame
/// was marked to begin with). So a take returns true once per change, and an
/// immediately repeated take returns false.
pub proof fn law_redraw_flag(f: Frame, ops: Seq<DisplayOp>)
    ensures
        after_ops(f, ops).invalidated == changed_since_take(f, ops),
    decreases ops.len(),
{
    if ops.len() > 0 {
        let pre = ops.drop_last();
        let n = ops.len() - 1;
        law_redraw_flag(f, pre);
        let last = ops.last();
        if last is Take {
            assert(!no_take_from(ops, 0)) by {
                assert(ops[n] is Take);
            }
            assert forall|i: int| 0 <= i < ops.len() && #[trigger] changes_screen(ops[i]) implies !no_take_from(
                ops,
                i + 1,
            ) by {
                assert(ops[n] is Take);
            }
        } else if changes_screen(last) {
            assert(no_take_from(ops, n + 1));
            assert(changes_screen(ops[n]));
        } else {
            // an off-screen flip: nothing changes
            assert(no_take_from(ops, 0) == no_take_from(pre, 0)) by {
                if no_take_from(pre, 0) {
                    assert forall|j: int| 0 <= j < ops.len() implies !(#[trigger] ops[j] is Take) by {
                        if j < n {
                            assert(ops[j] == pre[j]);
                        }
                    }
                }
                if no_take_from(ops, 0) {
                    assert forall|j: int| 0 <= j < pre.len() implies !(#[trigger] pre[j] is Take) by {
                        assert(ops[j] == pre[j]);
                    }
                }
            }
            let ex_pre = exists|i: int|
                0 <= i < pre.len() && #[trigger] changes_screen(pre[i]) && no_take_from(pre, i + 1);
            let ex_ops = exists|i: int|
                0 <= i < ops.len() && #[trigger] changes_screen(ops[i]) && no_take_from(ops, i + 1);
            assert(ex_pre == ex_ops) by {
                if ex_pre {
                    let i = choose|i: int|
                        0 <= i < pre.len() && #[trigger] changes_screen(pre[i]) && no_take_from(
                            pre,
                            i + 1,
                        );
                    assert(ops[i] == pre[i]);
                    assert forall|j: int| i + 1 <= j < ops.len() implies !(#[trigger] ops[j] is Take) by {
                        if j < n {
                            assert(ops[j] == pre[j]);
                        }
                    }
                }
                if ex_ops {
                    let i = choose|i: int|
                        0 <= i < ops.len() && #[trigger] changes_screen(ops[i]) && no_take_from(
                            ops,
                            i + 1,
                        );
                    assert(i < n);
                    assert(ops[i] == pre[i]);
                    assert forall|j: int| i + 1 <= j < pre.len() implies !(#[trigger] pre[j] is Take) by {
                        assert(ops[j] == pre[j]);
                    }
                }
            }
        }
    }
}

/// The generator is seeded with the low bit forced on, so two seeds that
/// differ only in that bit give the same machine.
pub proof fn law_seed_low_bit_ignored(even: u32, odd: u32)
    requires
        even % 2 == 0,
        odd == even + 1,
    ensures
        initial_machine(even) == initial_machine(odd),
{
    assert(even | 1u32 == odd | 1u32) by (bit_vector)
        requires
            even % 2 == 0,
            odd == even + 1,
    ;
}

/// FX65 after FX55 with the same X gives back V0 to VX and leaves the other
/// registers, I and the stored memory as FX55 left them.
#[verifier::rlimit(40)]
#[verifier::spinoff_prover]
pub proof fn law_store_then_load_registers(s: Machine, x: int, store: u16, load: u16)
    requires
        s.v.len() == 16,
        s.memory.len() == MEMORY_SIZE,
        0 <= x < 16,
        store == 0xF055 + 0x100 * x,
        load == 0xF065 + 0x100 * x,
    ensures
        execute_spec(execute_spec(s, store), load) == execute_spec(s, store),
        execute_spec(s, store) == (Machine { memory: stored_registers(s.memory, s.v, s.i, x), ..s }),
{
    assert(op_kind(store) == 0xF && op_x(store) == x && op_nn(store) == 0x55);
    assert(op_kind(load) == 0xF && op_x(load) == x && op_nn(load) == 0x65);
    let s1 = execute_spec(s, store);
    assert(s1 == misc_spec(s, x, 0x55));
    law_load_after_store(s.memory, s.v, s.i, x);
}

/// FX0A only records the register that waits for a key.
#[verifier::rlimit(40)]
#[verifier::spinoff_prover]
proof fn lemma_fx0a(s: Machine, x: int, op: u16)
    requires
        s.v.len() == 16,
        0 <= x < 16,
        op == 0xF00A + 0x100 * x,
    ensures
        execute_spec(s, op) == (Machine { wait_for_key: Some(x), ..s }),
{
    assert(op_kind(op) == 0xF && op_x(op) == x && op_nn(op) == 0x0A);
}

/// FX0A halts the machine until a key is pressed: it only records the
/// register, stepping then changes nothing, and a press stores the key in
/// that register and resumes.
#[verifier::rlimit(40)]
#[verifier::spinoff_prover]
pub proof fn law_wait_for_key(s: Machine, x: int, op: u16, key: u8)
    requires
        s.v.len() == 16,
        0 <= x < 16,
        op == 0xF00A + 0x100 * x,
    ensures
        execute_spec(s, op) == (Machine { wait_for_key: Some(x), ..s }),
        step_spec(execute_spec(s, op)) == execute_spec(s, op),
        set_key_spec(execute_spec(s, op), key, true).v[x] == key,
        set_key_spec(execute_spec(s, op), key, true).wait_for_key is None,
{
    lemma_fx0a(s, x, op);
    let s1 = execute_spec(s, op);
    law_halted_while_waiting(s1);
    law_key_press_resumes(s1, key, true);
}

/// FX65 after FX55, with the registers changed in between: V0 to VX get back
/// what FX55 stored, and the registers above VX keep their current values.
pub proof fn law_load_restores_stored(memory: Seq<u8>, stored: Seq<u8>, current: Seq<u8>, i: u16, x: int)
    requires
        memory.len() == MEMORY_SIZE,
        stored.len() == 16,
        current.len() == 16,
        0 <= x < 16,
    ensures
        loaded_registers(stored_registers(memory, stored, i, x), current, i, x).len() == 16,
        forall|r: int|
            0 <= r < 16 ==> #[trigger] loaded_registers(stored_registers(memory, stored, i, x), current, i, x)[r]
                == if r <= x {
                stored[r]
            } else {
                current[r]
            },
{
    let m = stored_registers(memory, stored, i, x);
    assert forall|r: int| 0 <= r <= x implies #[trigger] m[address(i + r)] == stored[r] by {
        assert(address(address(i + r) - i) == r);
    }
}

/// Something that happens to the machine: a step, an opcode executed directly,
/// a key pressed or released, or a timer tick.
pub enum Event {
    Step,
    Execute(u16),
    Key(u8, bool),
    Tick,
}

/// What `e` does to `s`.
pub open spec fn after_event(s: Machine, e: Event) -> Machine {
    match e {
        Event::Step => step_spec(s),
        Event::Execute(op) => execute_spec(s, op),
        Event::Key(key, pressed) => set_key_spec(s, key, pressed),
        Event::Tick => ticked(s),
    }
}

/// The machine after the events `events`, in order.
pub open spec fn after_events(s: Machine, events: Seq<Event>) -> Machine
    decreases events.len(),
{
    if events.len() == 0 {
        s
    } else {
        after_event(after_events(s, events.drop_last()), events.last())
    }
}

/// The machine is deterministic: two machines powered on with seeds that the
/// generator does not tell apart (equal seeds, or seeds differing only in the
/// low bit) reach the same state after the same events, random bytes
/// included, and so give the same results on the next call.
#[verifier::rlimit(40)]
#[verifier::spinoff_prover]
pub proof fn law_deterministic(a: u32, b: u32, events: Seq<Event>)
    requires
        a | 1u32 == b | 1u32,
    ensures
        after_events(initial_machine(a), events) == after_events(initial_machine(b), events),
    decreases events.len(),
{
    assert(initial_machine(a) == initial_machine(b));
    if events.len() > 0 {
        law_deterministic(a, b, events.drop_last());
    }
}

/// One timer tick counts each timer down by one, stopping at zero; each
/// timer counts down on its own, whatever the other holds, and nothing else
/// changes.
pub proof fn law_tick(s: Machine)
    ensures
        ticked(s) == (Machine {
            dt: if s.dt == 0 { 0 } else { (s.dt - 1) as u8 },
            st: if s.st == 0 { 0 } else { (s.st - 1) as u8 },
            ..s
        }),
        ticked(s).dt as int == if s.dt as int > 0 { s.dt - 1 } else { 0 },
        ticked(s).st as int == if s.st as int > 0 { s.st - 1 } else { 0 },
{
}

/// The keypad after the first `k` keys of `down` are reported to a machine
/// whose keypad agreed with `before`.
proof fn lemma_keys_reported(s: Machine, before: Seq<bool>, down: Seq<bool>, k: nat)
    requires
        s.keys == before,
        before.len() == 16,
        down.len() == 16,
        k <= 16,
    ensures
        report_changes(s, before, down, k).keys == Seq::new(
            16,
            |j: int| if j < k { down[j] } else { before[j] },
        ),
    decreases k,
{
    if k > 0 {
        lemma_keys_reported(s, before, down, (k - 1) as nat);
        let prev = report_changes(s, before, down, (k - 1) as nat);
        let key = k - 1;
        if down[key] != before[key] {
            assert(set_key_spec(prev, key as u8, down[key]).keys == keys_after(
                prev.keys,
                key as int,
                down[key],
            ));
        }
        assert(report_changes(s, before, down, k).keys =~= Seq::new(
            16,
            |j: int| if j < k { down[j] } else { before[j] },
        ));
    }
}

/// After the keyboard is read, the keypad holds exactly the keys the keyboard
/// holds, presses and releases alike, provided it agreed with the keys last
/// read.
pub proof fn law_keyboard_reaches_keypad(s: Machine, before: Seq<bool>, down: Seq<bool>)
    requires
        s.keys == before,
        before.len() == 16,
        down.len() == 16,
    ensures
        report_changes(s, before, down, 16).keys == down,
        forall|k: int| 0 <= k < 16 ==> #[trigger] key_down(report_changes(s, before, down, 16).keys, k) == down[k],
{
    lemma_keys_reported(s, before, down, 16);
    assert(report_changes(s, before, down, 16).keys =~= down);
}

/// A step fetches the two bytes at PC, high byte first (wrapping around
/// memory), moves PC past them, and executes them; while an FX0A waits it
/// does nothing.
#[verifier::rlimit(40)]
#[verifier::spinoff_prover]
pub proof fn law_step_fetches(s: Machine)
    requires
        s.memory.len() == MEMORY_SIZE,
    ensures
        s.wait_for_key is None ==> step_spec(s) == execute_spec(
            Machine { pc: ((s.pc + 2) % 0x1000) as u16, ..s },
            (s.memory[s.pc as int % 0x1000] * 0x100 + s.memory[(s.pc + 1) % 0x1000]) as u16,
        ),
        s.wait_for_key is Some ==> step_spec(s) == s,
{
}

/// Loading a ROM puts its bytes at 0x200 onwards, in order, and leaves every
/// other byte of memory alone.
pub proof fn law_load_places_rom(memory: Seq<u8>, rom: Seq<u8>)
    requires
        memory.len() == MEMORY_SIZE,
        rom.len() <= MEMORY_SIZE - 0x200,
    ensures
        loaded_memory(memory, rom).len() == MEMORY_SIZE,
        forall|k: int| 0 <= k < rom.len() ==> #[trigger] loaded_memory(memory, rom)[0x200 + k] == rom[k],
        forall|a: int|
            0 <= a < MEMORY_SIZE && !(0x200 <= a < 0x200 + rom.len()) ==> #[trigger] loaded_memory(
                memory,
                rom,
            )[a] == memory[a],
{
    assert forall|k: int| 0 <= k < rom.len() implies #[trigger] loaded_memory(memory, rom)[0x200 + k]
        == rom[k] by {
        assert(0x200 + k - 0x200 == k);
    }
}

/// At power-on the registers, I and the timers are zero, PC is at 0x200, the
/// stack is empty, the screen blank and marked for drawing, no key is held,
/// nothing waits for a key, the generator holds the seed with its low bit set,
/// and memory holds the font at 0x000 - 0x050 and zeros above it.
pub proof fn law_power_on(seed: u32)
    ensures
        ({
            let m = initial_machine(seed);
            &&& m.v == Seq::new(16, |r: int| 0u8)
            &&& m.i == 0 && m.dt == 0 && m.st == 0
            &&& m.pc == 0x200
            &&& m.stack.len() == 0
            &&& m.display.pixels == Seq::new(BUFF_LENGTH as nat, |p: int| false)
            &&& m.display.invalidated
            &&& m.keys == Seq::new(16, |k: int| false)
            &&& m.wait_for_key is None
            &&& m.rng == seed | 1u32 && m.rng != 0
            &&& m.memory.len() == MEMORY_SIZE
            &&& forall|a: int| 0 <= a < 80 ==> #[trigger] m.memory[a] == FONT@[a]
            &&& forall|a: int| 80 <= a < MEMORY_SIZE ==> #[trigger] m.memory[a] == 0
        }),
{
    let r = seed | 1u32;
    assert(r != 0) by (bit_vector)
        requires
            r == seed | 1u32,
    ;
}

/// A frame ticks the timers once, then reports the keys that changed, then
/// runs three steps.
#[verifier::rlimit(40)]
#[verifier::spinoff_prover]
pub proof fn law_frame(s: Machine, before: Seq<bool>, after: Seq<bool>)
    ensures
        frame_spec(s, before, after) == step_spec(
            step_spec(step_spec(report_changes(ticked(s), before, after, 16))),
        ),
{
}

/// The screen is drawn white on black: a set pixel is 0xFFFFFF and an unset
/// one 0x000000, one colour per pixel in the same order.
pub proof fn law_colors(pixels: Seq<bool>)
    ensures
        colors(pixels).len() == pixels.len(),
        forall|p: int| 0 <= p < pixels.len() ==> #[trigger] colors(pixels)[p] == if pixels[p] {
            0xFFFFFFu32
        } else {
            0u32
        },
{
}

} // verus!

//! The CHIP-8 processor: registers, memory, timers and the fetch-execute cycle.
use vstd::prelude::*;

use std::time::SystemTime;

use crate::clock::unix_epoch;
use crate::display::{Display, BUFF_LENGTH};
use crate::keypad::{key_down, Keypad, KEY_COUNT};
use crate::machine::{
    address, alu_spec, draw_spec, execute_spec, initial_machine, initial_memory,
    lemma_address_mask, loaded_memory, max_rom_len, misc_spec, next_pc, op_kind, op_n, op_nn,
    op_nnn, op_x, op_y, set_key_spec, skip_next, step_spec, ticked, xorshift32, Machine, FONT,
    FONT_BYTE_LENGTH, VF,
};
use crate::sprite::draw_sprite;
use crate::stack::{Stack, STACK_CAPACITY};

pub use crate::machine::{MEMORY_SIZE, PROGRAM_START};

verus! {

/// A ROM of the given length in bytes does not fit in memory.
#[derive(Debug, PartialEq, Eq, Structural)]
pub struct RomTooLarge(pub usize);

/// The fields of an opcode, as the bit masks of the decoder extract them.
proof fn lemma_decode(op: u16)
    ensures
        (op & 0x0F00u16) >> 8u16 == op_x(op),
        (op & 0x00F0u16) >> 4u16 == op_y(op),
        op & 0x0FFFu16 == op_nnn(op),
        (op & 0x00FFu16) as u8 == op_nn(op),
        (op & 0x000Fu16) as u8 == op_n(op),
        op >> 12u16 == op_kind(op),
{
    assert((op & 0x0F00u16) >> 8u16 == (op / 0x100u16) % 0x10u16) by (bit_vector);
    assert((op & 0x00F0u16) >> 4u16 == (op / 0x10u16) % 0x10u16) by (bit_vector);
    assert(op & 0x0FFFu16 == op % 0x1000u16) by (bit_vector);
    assert(op & 0x00FFu16 == op % 0x100u16) by (bit_vector);
    assert(op & 0x000Fu16 == op % 0x10u16) by (bit_vector);
    assert(op >> 12u16 == op / 0x1000u16) by (bit_vector);
}

/// Program-counter arithmetic wraps at 4KB.
proof fn lemma_wrap16(a: u16)
    ensures
        a & 0xFFFu16 == address(a as int),
{
    assert(a & 0xFFFu16 == a % 4096) by (bit_vector);
}

/// The address two bytes on, as the processor computes it.
proof fn lemma_next_pc(pc: u16, w: u16)
    requires
        w == (if pc + 2 > u16::MAX {
            (pc + 2 - 0x10000) as u16
        } else {
            (pc + 2) as u16
        }),
    ensures
        w & 0xFFFu16 == next_pc(pc),
{
    lemma_wrap16(w);
}

/// Cell `a` is the one that lies `r` bytes past address `i`.
proof fn lemma_address_offset(a: int, i: int, r: int)
    requires
        0 <= a < MEMORY_SIZE,
        0 <= r < MEMORY_SIZE,
    ensures
        (address(a - i) == r) == (a == address(i + r)),
{
}

/// The shifts of 8XY6 and 8XYE in arithmetic terms.
proof fn lemma_shifts(vx: u8)
    ensures
        vx >> 1u8 == vx / 2,
        vx & 1u8 == (if vx % 2 == 1 {
            1u8
        } else {
            0u8
        }),
        vx << 1u8 == ((vx * 2) % 0x100) as u8,
        vx >> 7u8 == (if vx >= 0x80 {
            1u8
        } else {
            0u8
        }),
        vx & 0xFu8 == vx % 0x10,
{
    assert(vx >> 1u8 == vx / 2) by (bit_vector);
    assert(vx & 1u8 == vx % 2) by (bit_vector);
    assert(vx << 1u8 == ((vx * 2) % 0x100) as u8) by (bit_vector);
    assert(vx >> 7u8 == (if vx >= 0x80 {
        1u8
    } else {
        0u8
    })) by (bit_vector);
    assert(vx & 0xFu8 == vx % 0x10) by (bit_vector);
}

/// A CHIP-8 machine.
pub struct Cpu {
    v: [u8; 16],
    i: u16,
    pc: u16,
    dt: u8,
    st: u8,
    memory: [u8; MEMORY_SIZE],
    stack: Stack,
    display: Display,
    keypad: Keypad,
    /// Register waiting for a keypress (FX0A); execution halts until it's set.
    wait_for_key: Option<usize>,
    rng: u32,
}

impl View for Cpu {
    type V = Machine;

    closed spec fn view(&self) -> Machine {
        Machine {
            v: self.v@,
            i: self.i,
            pc: self.pc,
            dt: self.dt,
            st: self.st,
            memory: self.memory@,
            stack: self.stack@,
            display: self.display@,
            keys: self.keypad@,
            wait_for_key: match self.wait_for_key {
                Some(x) => Some(x as int),
                None => None,
            },
            rng: self.rng,
        }
    }
}

impl Cpu {
    /// The stack is within its capacity, a pending FX0A names a register, and
    /// the random generator is never zero.
    pub closed spec fn wf(&self) -> bool {
        &&& self.stack.wf()
        &&& self.wait_for_key matches Some(x) ==> x < 16
        &&& self.rng != 0
    }

    /// The shape of a well-formed machine: 16 registers, 4KB of memory, a
    /// stack within its capacity, one pixel per screen position, 16 keys, a
    /// pending FX0A naming one of the registers, and a nonzero generator.
    pub proof fn lemma_shape(&self)
        requires
            self.wf(),
        ensures
            self@.v.len() == 16,
            self@.memory.len() == MEMORY_SIZE,
            self@.stack.len() <= STACK_CAPACITY,
            self@.display.pixels.len() == BUFF_LENGTH,
            self@.keys.len() == KEY_COUNT,
            self@.wait_for_key matches Some(x) ==> 0 <= x < 16,
            self@.rng != 0,
    {
        self.stack.lemma_bounded();
        self.display.lemma_pixel_count();
        self.keypad.lemma_key_count();
    }

    /// A powered-on machine whose random generator is seeded from the
    /// fractional nanoseconds of the clock.
    pub fn new() -> (c: Self)
        ensures
            c.wf(),
            exists|seed: u32| seed < 1_000_000_000 && c@ == initial_machine(seed),
    {
        let seed = match SystemTime::now().duration_since(unix_epoch()) {
            Ok(d) => d.subsec_nanos(),
            Err(_) => 0,
        };
        let c = Self::with_seed(seed);
        assert(seed < 1_000_000_000 && c@ == initial_machine(seed));
        c
    }

    /// A powered-on machine whose random generator is seeded from `seed`.
    pub fn with_seed(seed: u32) -> (c: Self)
        ensures
            c.wf(),
            c@ == initial_machine(seed),
    {
        let mut memory = [0u8; MEMORY_SIZE];
        let mut k: usize = 0;
        while k < FONT.len()
            invariant
                k <= 80,
                forall|a: int| 0 <= a < MEMORY_SIZE ==> #[trigger] memory@[a] == (if a < k {
                    FONT@[a]
                } else {
                    0
                }),
            decreases 80 - k,
        {
            memory[k] = FONT[k];
            k = k + 1;
        }
        assert(memory@ =~= initial_memory());
        // xorshift must not start at zero
        let rng = seed | 1;
        assert(rng != 0) by (bit_vector)
            requires
                rng == seed | 1u32,
        ;
        let c = Cpu {
            v: [0; 16],
            i: 0,
            pc: PROGRAM_START,
            dt: 0,
            st: 0,
            memory,
            stack: Stack::new(),
            display: Display::new(),
            keypad: Keypad::new(),
            wait_for_key: None,
            rng,
        };
        assert(c@.v =~= Seq::new(16, |r: int| 0u8));
        assert(c@ =~= initial_machine(seed));
        c
    }

    /// Copies `rom` to the program area and jumps to its start; a ROM that
    /// does not fit is refused and the machine is left as it was.
    pub fn load(&mut self, rom: &[u8]) -> (r: Result<(), RomTooLarge>)
        requires
            old(self).wf(),
        ensures
            final(self).wf(),
            rom@.len() > max_rom_len() ==> r == Err::<(), RomTooLarge>(RomTooLarge(rom@.len() as usize))
                && final(self)@ == old(self)@,
            rom@.len() <= max_rom_len() ==> r is Ok && final(self)@ == (Machine {
                memory: loaded_memory(old(self)@.memory, rom@),
                pc: PROGRAM_START,
                ..old(self)@
            }),
    {
        let start = PROGRAM_START as usize;
        if rom.len() > MEMORY_SIZE - start {
            return Err(RomTooLarge(rom.len()));
        }
        let mut k: usize = 0;
        while k < rom.len()
            invariant
                start == PROGRAM_START,
                k <= rom@.len() <= MEMORY_SIZE - start,
                self.wf(),
                self@ == (Machine { memory: self@.memory, ..old(self)@ }),
                forall|a: int| 0 <= a < MEMORY_SIZE ==> #[trigger] self.memory@[a] == (if start <= a
                    < start + k {
                    rom@[a - start]
                } else {
                    old(self).memory@[a]
                }),
            decreases rom@.len() - k,
        {
            self.memory[start + k] = rom[k];
            k = k + 1;
        }
        self.pc = PROGRAM_START;
        assert(self@.memory =~= loaded_memory(old(self)@.memory, rom@));
        Ok(())
    }

    /// The registers V0 to VF.
    pub fn v(&self) -> (v: [u8; 16])
        ensures
            v@ == self@.v,
    {
        self.v
    }

    /// Replaces the registers V0 to VF.
    pub fn set_v(&mut self, v: [u8; 16])
        requires
            old(self).wf(),
        ensures
            final(self).wf(),
            final(self)@ == (Machine { v: v@, ..old(self)@ }),
    {
        self.v = v;
    }

    /// The address register I.
    pub fn i(&self) -> (i: u16)
        ensures
            i == self@.i,
    {
        self.i
    }

    /// The program counter.
    pub fn pc(&self) -> (pc: u16)
        ensures
            pc == self@.pc,
    {
        self.pc
    }

    /// The delay timer.
    pub fn delay_timer(&self) -> (dt: u8)
        ensures
            dt == self@.dt,
    {
        self.dt
    }

    /// The sound timer.
    pub fn sound_timer(&self) -> (st: u8)
        ensures
            st == self@.st,
    {
        self.st
    }

    /// The memory.
    pub fn memory(&self) -> (m: &[u8; MEMORY_SIZE])
        ensures
            m@ == self@.memory,
    {
        &self.memory
    }

    /// The register waiting for a keypress (FX0A), if any.
    pub fn waiting_for_key(&self) -> (r: Option<usize>)
        requires
            self.wf(),
        ensures
            r matches Some(x) ==> self@.wait_for_key == Some(x as int),
            r is None ==> self@.wait_for_key is None,
    {
        self.wait_for_key
    }

    /// The screen.
    pub fn display(&self) -> (d: &Display)
        ensures
            d@ == self@.display,
    {
        &self.display
    }

    /// The screen, to be redrawn and marked as drawn.
    pub fn display_mut(&mut self) -> (d: &mut Display)
        requires
            old(self).wf(),
        ensures
            d@ == old(self)@.display,
            final(self).wf(),
            final(self)@ == (Machine { display: final(d)@, ..old(self)@ }),
    {
        &mut self.display
    }

    /// Decrements the delay and sound timers; call at 60Hz. Returns true
    /// while the sound timer is active and a beep should be played.
    pub fn tick_timers(&mut self) -> (beep: bool)
        requires
            old(self).wf(),
        ensures
            final(self).wf(),
            beep == (old(self)@.st > 0),
            final(self)@ == ticked(old(self)@),
    {
        self.dt = self.dt.saturating_sub(1);
        if self.st > 0 {
            self.st = self.st - 1;
            return true;
        }
        false
    }

    /// Presses or releases a key; a press completes a pending FX0A by storing
    /// the key in its register.
    pub fn set_key(&mut self, key: u8, pressed: bool)
        requires
            old(self).wf(),
        ensures
            final(self).wf(),
            final(self)@ == set_key_spec(old(self)@, key, pressed),
            final(self)@.keys.len() == KEY_COUNT,
            key < KEY_COUNT ==> key_down(final(self)@.keys, key as int) == pressed,
            forall|k: int| k != key ==> key_down(final(self)@.keys, k) == key_down(old(self)@.keys, k),
            pressed ==> (old(self)@.wait_for_key matches Some(x) ==> 0 <= x < 16 && final(self)@.v[x]
                == key && final(self)@.wait_for_key is None),
            !pressed ==> final(self)@.v == old(self)@.v && final(self)@.wait_for_key == old(self)@.wait_for_key,
    {
        self.keypad.set(key, pressed);
        if pressed {
            match self.wait_for_key {
                Some(x) => {
                    self.wait_for_key = None;
                    self.v[x] = key;
                },
                None => {},
            }
        }
        assert(self@ =~= set_key_spec(old(self)@, key, pressed));
    }
}

impl Cpu {
    /// Fetches and executes a single opcode; does nothing while waiting for
    /// a key.
    pub fn step(&mut self)
        requires
            old(self).wf(),
        ensures
            final(self).wf(),
            final(self)@ == step_spec(old(self)@),
    {
        // we're waiting for a keypress, don't advance..
        if self.wait_for_key.is_some() {
            return;
        }
        let pc = self.pc as usize;
        proof {
            lemma_address_mask(pc);
            lemma_address_mask((pc + 1) as usize);
        }
        let hi = self.memory[pc & 0xFFF];
        let lo = self.memory[(pc + 1) & 0xFFF];
        let opcode = hi as u16 * 0x100 + lo as u16;
        let next = self.pc.wrapping_add(2);
        proof {
            lemma_next_pc(self.pc, next);
        }
        self.pc = next & 0xFFF;
        self.execute(opcode);
    }

    /// Executes one opcode.
    #[verifier::rlimit(40)]
    #[verifier::spinoff_prover]
    pub fn execute(&mut self, opcode: u16)
        requires
            old(self).wf(),
        ensures
            final(self).wf(),
            final(self)@ == execute_spec(old(self)@, opcode),
    {
        let x = ((opcode & 0x0F00) >> 8) as usize;
        let y = ((opcode & 0x00F0) >> 4) as usize;
        let nnn = opcode & 0x0FFF;
        let nn = (opcode & 0x00FF) as u8;
        let n = (opcode & 0x000F) as u8;
        proof {
            lemma_decode(opcode);
        }
        match opcode >> 12 {
            0x0 => match opcode {
                0x00E0 => self.display.clear(),  // clear screen
                0x00EE => self.pc = self.stack.pop().unwrap_or(PROGRAM_START),  // return from a subroutine
                _ => {},  // 0NNN (machine code routine) is unsupported
            },
            0x1 => self.pc = nnn,  // 1NNN (jump to NNN)
            0x2 => {
                // 2NNN (call subroutine at NNN)
                let _ = self.stack.push(self.pc);
                self.pc = nnn;
            },
            0x3 => {
                // 3XNN (skip next inst if VX == NN)
                let cond = self.v[x] == nn;
                self.skip_if(cond);
            },
            0x4 => {
                // 4XNN (skip next inst if VX != NN)
                let cond = self.v[x] != nn;
                self.skip_if(cond);
            },
            0x5 => {
                // 5XY0 (skip next inst if VX == VY)
                let cond = self.v[x] == self.v[y];
                self.skip_if(cond);
            },
            0x6 => self.v[x] = nn,  // 6XNN (VX = NN)
            0x7 => self.v[x] = self.v[x].wrapping_add(nn),  // 7XNN (VX += NN)
            0x8 => self.x8000(x, y, n),
            0x9 => {
                // 9XY0 (skip next inst if VX != VY)
                let cond = self.v[x] != self.v[y];
                self.skip_if(cond);
            },
            0xA => self.i = nnn,  // ANNN (I = NNN)
            0xB => {
                // BNNN (PC = NNN + V0)
                let target = nnn + self.v[0] as u16;
                proof {
                    lemma_wrap16(target);
                }
                self.pc = target & 0xFFF;
            },
            0xC => {
                // CXNN (VX = random() & NN)
                let r = self.random();
                self.v[x] = r & nn;
            },
            0xD => self.draw(x, y, n),
            0xE => match nn {
                0x9E => {
                    // EX9E (skip if key VX is pressed)
                    let cond = self.keypad.key(self.v[x]);
                    self.skip_if(cond);
                },
                0xA1 => {
                    // EXA1 (skip if key VX isn't pressed)
                    let cond = !self.keypad.key(self.v[x]);
                    self.skip_if(cond);
                },
                _ => {},
            },
            _ => self.xf000(x, nn),
        }
    }

    /// 8XYN: register arithmetic and logic.
    #[verifier::rlimit(40)]
    #[verifier::spinoff_prover]
    fn x8000(&mut self, x: usize, y: usize, n: u8)
        requires
            old(self).wf(),
            x < 16,
            y < 16,
        ensures
            final(self).wf(),
            final(self)@ == alu_spec(old(self)@, x as int, y as int, n as int),
    {
        let (vx, vy) = (self.v[x], self.v[y]);
        match n {
            0x0 => self.v[x] = vy,  // 8XY0 (VX = VY)
            0x1 => self.v[x] = vx | vy,  // 8XY1 (VX = VX | VY)
            0x2 => self.v[x] = vx & vy,  // 8XY2 (VX = VX & VY)
            0x3 => self.v[x] = vx ^ vy,  // 8XY3 (VX = VX ^ VY)
            0x4 => {
                // 8XY4 VX += VY, with VF = carry
                let res = vx.wrapping_add(vy);
                let carry: u8 = if vy > 0xFF - vx { 1 } else { 0 };
                self.v[x] = res;
                self.v[VF] = carry;
            },
            0x5 => {
                // 8XY5 VX -= VY, with VF = NOT borrow
                self.v[x] = vx.wrapping_sub(vy);
                self.v[VF] = if vx >= vy { 1 } else { 0 };
            },
            0x6 => {
                // 8XY6 VX >> 1, VF = LSB
                proof {
                    lemma_shifts(vx);
                }
                self.v[x] = vx >> 1u8;
                self.v[VF] = vx & 0x1u8;
            },
            0x7 => {
                // 8XY7 VX = VY - VX, with VF = NOT borrow
                self.v[x] = vy.wrapping_sub(vx);
                self.v[VF] = if vy >= vx { 1 } else { 0 };
            },
            0xE => {
                // 8XYE VX << 1, VF = MSB
                proof {
                    lemma_shifts(vx);
                }
                self.v[x] = vx << 1u8;
                self.v[VF] = vx >> 7u8;
            },
            _ => {},
        }
    }

    /// FXNN: timers, the address register, keys and memory transfers.
    #[verifier::spinoff_prover]
    fn xf000(&mut self, x: usize, nn: u8)
        requires
            old(self).wf(),
            x < 16,
        ensures
            final(self).wf(),
            final(self)@ == misc_spec(old(self)@, x as int, nn),
    {
        let i = self.i as usize;
        match nn {
            0x07 => self.v[x] = self.dt,  // FX07 (VX = DT)
            0x0A => self.wait_for_key = Some(x),  // FX0A (wait for keypress and store it to VX)
            0x15 => self.dt = self.v[x],  // FX15 (DT = VX)
            0x18 => self.st = self.v[x],  // FX18 (ST = VX)
            0x1E => self.i = self.i.wrapping_add(self.v[x] as u16),  // FX1E (I += VX)
            0x29 => {
                // FX29 (I = location of font for value of VX)
                let vx = self.v[x];
                proof {
                    lemma_shifts(vx);
                }
                self.i = (vx & 0xF) as u16 * FONT_BYTE_LENGTH;
            },
            0x33 => {
                // FX33 (I[0..2] = BCD(VX))
                let vx = self.v[x];
                proof {
                    lemma_address_mask(i);
                    lemma_address_mask((i + 1) as usize);
                    lemma_address_mask((i + 2) as usize);
                }
                self.memory[i & 0xFFF] = vx / 100;
                self.memory[(i + 1) & 0xFFF] = (vx / 10) % 10;
                self.memory[(i + 2) & 0xFFF] = vx % 10;
            },
            0x55 => {
                // FX55 (I[0..X] = V0..VX)
                let mut r: usize = 0;
                while r <= x
                    invariant
                        x < 16,
                        r <= x + 1,
                        i == old(self).i,
                        self.wf(),
                        self@ == (Machine { memory: self@.memory, ..old(self)@ }),
                        forall|a: int|
                            0 <= a < MEMORY_SIZE ==> #[trigger] self.memory@[a] == (if address(a - i)
                                < r {
                                old(self).v@[address(a - i)]
                            } else {
                                old(self).memory@[a]
                            }),
                    decreases x + 1 - r,
                {
                    proof {
                        lemma_address_mask((i + r) as usize);
                    }
                    self.memory[(i + r) & 0xFFF] = self.v[r];
                    proof {
                        assert forall|a: int| 0 <= a < MEMORY_SIZE implies #[trigger] self.memory@[a]
                            == (if address(a - i) < r + 1 {
                            old(self).v@[address(a - i)]
                        } else {
                            old(self).memory@[a]
                        }) by {
                            lemma_address_offset(a, i as int, r as int);
                        }
                    }
                    r = r + 1;
                }
                assert(self@.memory =~= crate::machine::stored_registers(
                    old(self)@.memory,
                    old(self)@.v,
                    old(self)@.i,
                    x as int,
                ));
            },
            0x65 => {
                // FX65 (V0..VX = I[0..X])
                let mut r: usize = 0;
                while r <= x
                    invariant
                        x < 16,
                        r <= x + 1,
                        i == old(self).i,
                        self.wf(),
                        self@ == (Machine { v: self@.v, ..old(self)@ }),
                        forall|k: int|
                            0 <= k < 16 ==> #[trigger] self.v@[k] == (if k < r {
                                old(self).memory@[address(i + k)]
                            } else {
                                old(self).v@[k]
                            }),
                    decreases x + 1 - r,
                {
                    proof {
                        lemma_address_mask((i + r) as usize);
                    }
                    self.v[r] = self.memory[(i + r) & 0xFFF];
                    r = r + 1;
                }
                assert(self@.v =~= crate::machine::loaded_registers(
                    old(self)@.memory,
                    old(self)@.v,
                    old(self)@.i,
                    x as int,
                ));
            },
            _ => {},
        }
    }

    /// DXYN: draws an 8xN sprite from memory at I to (VX, VY), VF = collision.
    fn draw(&mut self, x: usize, y: usize, n: u8)
        requires
            old(self).wf(),
            x < 16,
            y < 16,
        ensures
            final(self).wf(),
            final(self)@ == draw_spec(old(self)@, x as int, y as int, n as int),
    {
        let (vx, vy) = (self.v[x], self.v[y]);
        let collision = draw_sprite(&mut self.display, &self.memory, self.i, vx, vy, n);
        self.v[VF] = if collision { 1 } else { 0 };
    }

    /// Skips the next instruction when `cond` holds.
    fn skip_if(&mut self, cond: bool)
        requires
            old(self).wf(),
        ensures
            final(self).wf(),
            final(self)@ == skip_next(old(self)@, cond),
    {
        if cond {
            let next = self.pc.wrapping_add(2);
            proof {
                lemma_next_pc(self.pc, next);
            }
            self.pc = next & 0xFFF;
        }
    }

    /// Advances the xorshift32 generator and returns the low byte of its state.
    fn random(&mut self) -> (r: u8)
        requires
            old(self).wf(),
        ensures
            final(self).wf(),
            final(self)@ == (Machine { rng: xorshift32(old(self)@.rng), ..old(self)@ }),
            r == xorshift32(old(self)@.rng) as u8,
    {
        self.rng = self.rng ^ (self.rng << 13u32);
        self.rng = self.rng ^ (self.rng >> 17u32);
        self.rng = self.rng ^ (self.rng << 5u32);
        proof {
            crate::laws::law_random_never_zero(old(self).rng);
        }
        self.rng as u8
    }
}

impl Default for Cpu {
    fn default() -> (c: Self)
        ensures
            c.wf(),
            exists|seed: u32| seed < 1_000_000_000 && c@ == initial_machine(seed),
    {
        Self::new()
    }
}

} // verus!

//! What the frontend decides: which key changes reach the keypad, what a frame
//! runs, and the colours the screen is drawn in. The window and the speaker
//! themselves are driven by the application.
use vstd::prelude::*;

use crate::cpu::Cpu;
use crate::display::{Display, BUFF_LENGTH, HEIGHT, WIDTH};
use crate::machine::{set_key_spec, step_spec, ticked, Machine};

verus! {

/// Colour of an unset pixel.
pub const BLACK: u32 = 0x000000;

/// Colour of a set pixel.
pub const WHITE: u32 = 0xFFFFFF;

/// Opcodes run in each 1/60s frame.
pub const OPCODES_PER_TICK: usize = 3;

/// The machine after each of the first `k` keys whose state differs between
/// `before` and `after` is reported to it, in key order.
pub open spec fn report_changes(s: Machine, before: Seq<bool>, after: Seq<bool>, k: nat) -> Machine
    decreases k,
{
    if k == 0 {
        s
    } else {
        let s1 = report_changes(s, before, after, (k - 1) as nat);
        let key = k - 1;
        if after[key] != before[key] {
            set_key_spec(s1, key as u8, after[key])
        } else {
            s1
        }
    }
}

/// The colour of each pixel of `pixels`, row by row.
pub open spec fn colors(pixels: Seq<bool>) -> Seq<u32> {
    pixels.map_values(|p: bool| if p { WHITE } else { BLACK })
}

/// What one frame does: the timers tick, the key changes are reported, and
/// three opcodes run.
pub open spec fn frame_spec(s: Machine, before: Seq<bool>, after: Seq<bool>) -> Machine {
    step_spec(step_spec(step_spec(report_changes(ticked(s), before, after, 16))))
}

/// Keyboard state, forwarded to the CPU's keypad.
pub struct Input {
    keys: [bool; 16],
    quit: bool,
}

impl Input {
    /// The keys last seen held down.
    pub closed spec fn keys(&self) -> Seq<bool> {
        self.keys@
    }

    /// Whether quitting was last asked for.
    pub closed spec fn quit(&self) -> bool {
        self.quit
    }

    /// No key held, no quit asked for.
    pub fn new() -> (input: Self)
        ensures
            input.keys() == Seq::new(16, |k: int| false),
            !input.quit(),
    {
        let input = Input { keys: [false; 16], quit: false };
        assert(input.keys() =~= Seq::new(16, |k: int| false));
        input
    }

    /// Records the keyboard as read from the window and reports each key that
    /// changed to the CPU, so FX0A waits for a fresh keypress.
    pub fn update(&mut self, quit: bool, down: [bool; 16], cpu: &mut Cpu)
        requires
            old(cpu).wf(),
        ensures
            final(cpu).wf(),
            final(self).keys() == down@,
            final(self).quit() == quit,
            final(cpu)@ == report_changes(old(cpu)@, old(self).keys(), down@, 16),
    {
        self.quit = quit;
        let mut k: usize = 0;
        while k < 16
            invariant
                k <= 16,
                cpu.wf(),
                self.quit == quit,
                cpu@ == report_changes(old(cpu)@, old(self).keys(), down@, k as nat),
                forall|j: int| 0 <= j < 16 ==> #[trigger] self.keys@[j] == (if j < k {
                    down@[j]
                } else {
                    old(self).keys@[j]
                }),
            decreases 16 - k,
        {
            let d = down[k];
            if d != self.keys[k] {
                self.keys[k] = d;
                cpu.set_key(k as u8, d);
            }
            k = k + 1;
        }
        assert(self.keys() =~= down@);
    }

    /// Whether Esc was pressed.
    pub fn quit_requested(&self) -> (quit: bool)
        ensures
            quit == self.quit(),
    {
        self.quit
    }
}

impl Default for Input {
    fn default() -> (input: Self)
        ensures
            input.keys() == Seq::new(16, |k: int| false),
            !input.quit(),
    {
        Self::new()
    }
}

/// Runs one 1/60s frame of the machine: the timers tick, the keys read from
/// the window reach the keypad, and a few opcodes run. Returns whether the
/// beeper should sound.
pub fn run_frame(cpu: &mut Cpu, input: &mut Input, quit: bool, down: [bool; 16]) -> (beep: bool)
    requires
        old(cpu).wf(),
    ensures
        final(cpu).wf(),
        beep == (old(cpu)@.st > 0),
        final(cpu)@ == frame_spec(old(cpu)@, old(input).keys(), down@),
        final(input).keys() == down@,
        final(input).quit() == quit,
{
    let beep = cpu.tick_timers();
    input.update(quit, down, cpu);
    let mut k: usize = 0;
    let ghost start = cpu@;
    while k < OPCODES_PER_TICK
        invariant
            k <= OPCODES_PER_TICK,
            cpu.wf(),
            k == 0 ==> cpu@ == start,
            k == 1 ==> cpu@ == step_spec(start),
            k == 2 ==> cpu@ == step_spec(step_spec(start)),
            k == 3 ==> cpu@ == step_spec(step_spec(step_spec(start))),
        decreases OPCODES_PER_TICK - k,
    {
        cpu.step();
        k = k + 1;
    }
    beep
}

/// Fills `buffer` with the colour of each pixel of the display, row by row.
pub fn render(display: &Display, buffer: &mut Vec<u32>)
    ensures
        final(buffer)@ == colors(display@.pixels),
{
    proof {
        display.lemma_pixel_count();
    }
    buffer.clear();
    let mut y: usize = 0;
    while y < HEIGHT
        invariant
            y <= HEIGHT,
            display@.pixels.len() == BUFF_LENGTH,
            buffer@.len() == y * WIDTH,
            forall|q: int| 0 <= q < buffer@.len() ==> #[trigger] buffer@[q] == colors(display@.pixels)[q],
        decreases HEIGHT - y,
    {
        let mut x: usize = 0;
        while x < WIDTH
            invariant
                y < HEIGHT,
                x <= WIDTH,
                display@.pixels.len() == BUFF_LENGTH,
                buffer@.len() == y * WIDTH + x,
                forall|q: int|
                    0 <= q < buffer@.len() ==> #[trigger] buffer@[q] == colors(display@.pixels)[q],
            decreases WIDTH - x,
        {
            let color = if display.get(x, y) { WHITE } else { BLACK };
            buffer.push(color);
            x = x + 1;
        }
        y = y + 1;
    }
    assert(buffer@ =~= colors(display@.pixels));
}

} // verus!

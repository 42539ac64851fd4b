//! The executable machine: memory, registers, stack, display, keypad and
//! timers, and the operations that the emulator loop drives.

use vstd::prelude::*;
use crate::constants::{
    CYCLES_PER_FRAME, DISPLAY_SIZE, DISPLAY_WIDTH, DISPLAY_HEIGHT, FONTSET, FONTSET_SIZE, FONT_START, NUM_KEYS,
    NUM_REGS, PROGRAM_START, RAM_SIZE, STACK_SIZE,
};
use crate::instruction::{decode, Instruction};
use crate::machine::{
    is_lowest_pressed, lemma_run_cycles_prefix, lemma_run_cycles_stops, sprite_pixel, MachineState,
    TickFault,
};
use crate::rng::{next_byte, seed_generator};
use rand::rngs::StdRng;

verus! {

/// The CHIP-8 machine. Besides the machine's own state it holds the random
/// generator of `CXNN`, seeded on first use; the generator is not part of
/// the machine's model, since nothing is stated of the bytes it gives.
pub struct CPU {
    pub ram: [u8; RAM_SIZE],
    pub v_reg: [u8; NUM_REGS],
    pub i_reg: u16,
    pub pc: u16,
    pub stack: [u16; STACK_SIZE],
    pub sp: u16,
    pub display: [bool; DISPLAY_SIZE],
    pub keys: [bool; NUM_KEYS],
    pub delay_timer: u8,
    pub sound_timer: u8,
    /// The random generator of `CXNN`; `None` until the first `CXNN`
    /// seeds it.
    pub generator: Option<StdRng>,
}

impl View for CPU {
    type V = MachineState;

    open spec fn view(&self) -> MachineState {
        MachineState {
            ram: self.ram@,
            v: self.v_reg@,
            i: self.i_reg,
            pc: self.pc,
            stack: self.stack@,
            sp: self.sp,
            display: self.display@,
            keys: self.keys@,
            delay_timer: self.delay_timer,
            sound_timer: self.sound_timer,
        }
    }
}

impl CPU {
    /// The random generator has been seeded: from now on no cycle fails for
    /// want of a random byte.
    pub open spec fn has_generator(&self) -> bool {
        self.generator is Some
    }

    /// A machine just switched on: the font at `FONT_START`, execution at
    /// `PROGRAM_START`, everything else zero.
    pub fn new() -> (cpu: Self)
        ensures
            cpu@ == MachineState::power_on(),
            !cpu.has_generator(),
    {
        let mut new_cpu = Self {
            ram: [0; RAM_SIZE],
            v_reg: [0; NUM_REGS],
            i_reg: 0,
            pc: 0x200,
            stack: [0; STACK_SIZE],
            sp: 0,
            display: [false; DISPLAY_SIZE],
            keys: [false; NUM_KEYS],
            delay_timer: 0,
            sound_timer: 0,
            generator: None,
        };
        let ghost target = MachineState::power_on();
        assert(new_cpu.v_reg@ =~= target.v);
        assert(new_cpu.stack@ =~= target.stack);
        assert(new_cpu.display@ =~= target.display);
        assert(new_cpu.keys@ =~= target.keys);
        let mut k: usize = 0;
        while k < FONTSET_SIZE
            invariant
                k <= FONTSET_SIZE,
                new_cpu.v_reg@ == target.v,
                new_cpu.stack@ == target.stack,
                new_cpu.display@ == target.display,
                new_cpu.keys@ == target.keys,
                new_cpu.i_reg == 0,
                new_cpu.pc == 0x200,
                new_cpu.sp == 0,
                new_cpu.delay_timer == 0,
                new_cpu.sound_timer == 0,
                new_cpu.generator is None,
                forall|a: int|
                    0 <= a < RAM_SIZE ==> #[trigger] new_cpu.ram@[a] == if FONT_START <= a
                        < FONT_START + k {
                        FONTSET@[a - FONT_START]
                    } else {
                        0u8
                    },
            decreases FONTSET_SIZE - k,
        {
            new_cpu.ram[FONT_START + k] = FONTSET[k];
            k = k + 1;
        }
        assert(new_cpu.ram@ =~= target.ram);
        new_cpu
    }

    /// Copies a program image into memory from `PROGRAM_START` on; the rest
    /// of the machine is unchanged.
    pub fn load_rom(&mut self, rom: &[u8])
        requires
            rom@.len() <= RAM_SIZE - PROGRAM_START,
        ensures
            final(self)@ == old(self)@.with_rom(rom@),
    {
        let len = rom.len();
        let mut k: usize = 0;
        while k < len
            invariant
                len == rom@.len(),
                len <= RAM_SIZE - PROGRAM_START,
                k <= len,
                self.v_reg == old(self).v_reg,
                self.stack == old(self).stack,
                self.display == old(self).display,
                self.keys == old(self).keys,
                self.i_reg == old(self).i_reg,
                self.pc == old(self).pc,
                self.sp == old(self).sp,
                self.delay_timer == old(self).delay_timer,
                self.sound_timer == old(self).sound_timer,
                forall|a: int|
                    0 <= a < RAM_SIZE ==> #[trigger] self.ram@[a] == if PROGRAM_START <= a
                        < PROGRAM_START + k {
                        rom@[a - PROGRAM_START]
                    } else {
                        old(self).ram@[a]
                    },
            decreases len - k,
        {
            self.ram[PROGRAM_START + k] = rom[k];
            k = k + 1;
        }
        assert(self.ram@ =~= old(self)@.with_rom(rom@).ram);
    }

    /// One 60 Hz timer step: each timer that is not zero goes down by one.
    /// Returns whether the beep sounds, which it does when the sound timer
    /// runs out in this step.
    pub fn tick_timers(&mut self) -> (beep: bool)
        ensures
            beep == old(self)@.beeps(),
            final(self)@ == old(self)@.timers_ticked(),
    {
        if self.delay_timer > 0 {
            self.delay_timer = self.delay_timer - 1;
        }
        let mut beep = false;
        if self.sound_timer > 0 {
            if self.sound_timer == 1 {
                beep = true;
            }
            self.sound_timer = self.sound_timer - 1;
        }
        beep
    }
}

/// Position of sprite cell (`row`, `col`) in the order in which drawing
/// visits it, for the display pixel `k` that the cell lands on.
pub(crate) open spec fn draw_order(s: MachineState, x: u8, y: u8, k: int) -> int {
    let sx = (s.v[x as int] % (DISPLAY_WIDTH as u8)) as int;
    let sy = (s.v[y as int] % (DISPLAY_HEIGHT as u8)) as int;
    (k / (DISPLAY_WIDTH as int) - sy) * 8 + (k % (DISPLAY_WIDTH as int) - sx)
}

/// The mask test that drawing performs on a sprite row picks the pixel
/// that `sprite_pixel` names.
pub(crate) proof fn lemma_sprite_mask(b: u8, col: u8)
    requires
        col < 8,
    ensures
        (b & (0x80u8 >> col) != 0) == sprite_pixel(b, col as int),
{
    assert((b & (0x80u8 >> col) != 0) == ((b >> ((7u8 - col) as u8)) & 1u8 == 1u8)) by (bit_vector)
        requires
            col < 8,
    ;
}

/// A display pixel that the sprite turns over is the one that the cell of
/// its draw order lands on.
proof fn lemma_draw_cell(s: MachineState, x: u8, y: u8, n: u8, row: int, col: int, k: int)
    requires
        s.wf(),
        x < 16,
        y < 16,
        0 <= row,
        0 <= col < 8,
        0 <= k < DISPLAY_SIZE,
        s.draw_hits_index(x, y, n, k),
        draw_order(s, x, y, k) == row * 8 + col,
    ensures
        ({
            let sx = (s.v[x as int] % (DISPLAY_WIDTH as u8)) as int;
            let sy = (s.v[y as int] % (DISPLAY_HEIGHT as u8)) as int;
            &&& sx + col < DISPLAY_WIDTH
            &&& sy + row < DISPLAY_HEIGHT
            &&& k == (sy + row) * 64 + (sx + col)
            &&& sprite_pixel(s.ram[s.i + row], col)
        }),
{
    let sx = (s.v[x as int] % (DISPLAY_WIDTH as u8)) as int;
    let sy = (s.v[y as int] % (DISPLAY_HEIGHT as u8)) as int;
    let px = k % 64;
    let py = k / 64;
    assert(k == py * 64 + px);
    let c = px - sx;
    let r = py - sy;
    assert(0 <= c < 8 && 0 <= r);
    assert(r * 8 + c == row * 8 + col);
    assert(r == row && c == col) by (nonlinear_arith)
        requires
            r * 8 + c == row * 8 + col,
            0 <= c < 8,
            0 <= col < 8,
            0 <= r,
            0 <= row,
    ;
}

/// Only one display pixel can have a given draw order: the one that the
/// cell of that order lands on.
proof fn lemma_draw_cell_unique(s: MachineState, x: u8, y: u8, n: u8, row: int, col: int)
    requires
        s.wf(),
        x < 16,
        y < 16,
        0 <= row,
        0 <= col < 8,
    ensures
        forall|k: int|
            0 <= k < DISPLAY_SIZE && #[trigger] s.draw_hits_index(x, y, n, k) && draw_order(
                s,
                x,
                y,
                k,
            ) == row * 8 + col ==> {
                let sx = (s.v[x as int] % (DISPLAY_WIDTH as u8)) as int;
                let sy = (s.v[y as int] % (DISPLAY_HEIGHT as u8)) as int;
                &&& sx + col < DISPLAY_WIDTH
                &&& sy + row < DISPLAY_HEIGHT
                &&& k == (sy + row) * 64 + (sx + col)
                &&& sprite_pixel(s.ram[s.i + row], col)
            },
{
    assert forall|k: int|
        0 <= k < DISPLAY_SIZE && #[trigger] s.draw_hits_index(x, y, n, k) && draw_order(s, x, y, k)
            == row * 8 + col implies {
        let sx = (s.v[x as int] % (DISPLAY_WIDTH as u8)) as int;
        let sy = (s.v[y as int] % (DISPLAY_HEIGHT as u8)) as int;
        &&& sx + col < DISPLAY_WIDTH
        &&& sy + row < DISPLAY_HEIGHT
        &&& k == (sy + row) * 64 + (sx + col)
        &&& sprite_pixel(s.ram[s.i + row], col)
    } by {
        lemma_draw_cell(s, x, y, n, row, col, k);
    }
}

/// The display pixel that cell (`row`, `col`) lands on, when on screen.
pub(crate) proof fn lemma_draw_target(s: MachineState, x: u8, y: u8, n: u8, row: int, col: int)
    requires
        s.wf(),
        x < 16,
        y < 16,
        0 <= row < n,
        0 <= col < 8,
        (s.v[x as int] % (DISPLAY_WIDTH as u8)) as int + col < DISPLAY_WIDTH,
        (s.v[y as int] % (DISPLAY_HEIGHT as u8)) as int + row < DISPLAY_HEIGHT,
    ensures
        ({
            let sx = (s.v[x as int] % (DISPLAY_WIDTH as u8)) as int;
            let sy = (s.v[y as int] % (DISPLAY_HEIGHT as u8)) as int;
            let k = (sy + row) * 64 + (sx + col);
            &&& 0 <= k < DISPLAY_SIZE
            &&& s.draw_hits_index(x, y, n, k) == sprite_pixel(s.ram[s.i + row], col)
            &&& draw_order(s, x, y, k) == row * 8 + col
        }),
{
    let sx = (s.v[x as int] % (DISPLAY_WIDTH as u8)) as int;
    let sy = (s.v[y as int] % (DISPLAY_HEIGHT as u8)) as int;
    let k = (sy + row) * 64 + (sx + col);
    assert(k % 64 == sx + col && k / 64 == sy + row) by (nonlinear_arith)
        requires
            k == (sy + row) * 64 + (sx + col),
            0 <= sx + col < 64,
            0 <= sy + row,
    ;
}

/// Every pixel that the sprite turns over comes before the end of the sprite.
proof fn lemma_draw_order_bound(s: MachineState, x: u8, y: u8, n: u8, k: int)
    requires
        s.wf(),
        x < 16,
        y < 16,
        0 <= k < DISPLAY_SIZE,
        s.draw_hits_index(x, y, n, k),
    ensures
        draw_order(s, x, y, k) < n * 8,
{
    let sx = (s.v[x as int] % (DISPLAY_WIDTH as u8)) as int;
    let sy = (s.v[y as int] % (DISPLAY_HEIGHT as u8)) as int;
    let c = k % 64 - sx;
    let r = k / 64 - sy;
    assert(r * 8 + c < n * 8) by (nonlinear_arith)
        requires
            0 <= c < 8,
            0 <= r < n,
    ;
}

impl CPU {
    /// `DXYN`.
    fn exec_draw(&mut self, x: u8, y: u8, n: u8)
        requires
            x < 16,
            y < 16,
            n < 16,
            n == 0 || old(self).i_reg + n <= RAM_SIZE,
        ensures
            final(self)@ == old(self)@.draw(x, y, n),
    {
        let ghost s0 = self@;
        let start_x: usize = (self.v_reg[x as usize] % 64) as usize;
        let start_y: usize = (self.v_reg[y as usize] % 32) as usize;
        let height: usize = n as usize;
        let mut collision = false;
        let mut row: usize = 0;
        while row < height
            invariant
                s0 == old(self)@,
                s0.wf(),
                x < 16,
                y < 16,
                height == n,
                n == 0 || s0.i + n <= RAM_SIZE,
                start_x == (s0.v[x as int] % (DISPLAY_WIDTH as u8)) as int,
                start_y == (s0.v[y as int] % (DISPLAY_HEIGHT as u8)) as int,
                row <= height,
                self.ram == old(self).ram,
                self.v_reg == old(self).v_reg,
                self.stack == old(self).stack,
                self.keys == old(self).keys,
                self.i_reg == old(self).i_reg,
                self.pc == old(self).pc,
                self.sp == old(self).sp,
                self.delay_timer == old(self).delay_timer,
                self.sound_timer == old(self).sound_timer,
                forall|k: int|
                    0 <= k < DISPLAY_SIZE ==> #[trigger] self.display@[k] == (s0.display[k] != (
                    s0.draw_hits_index(x, y, n, k) && draw_order(s0, x, y, k) < row * 8)),
                collision == exists|k: int|
                    0 <= k < DISPLAY_SIZE && #[trigger] s0.draw_hits_index(x, y, n, k)
                        && draw_order(s0, x, y, k) < row * 8 && s0.display[k],
            decreases height - row,
        {
            let sprite_byte = self.ram[self.i_reg as usize + row];
            let mut col: u8 = 0;
            while col < 8
                invariant
                    s0 == old(self)@,
                    s0.wf(),
                    x < 16,
                    y < 16,
                    height == n,
                    row < height,
                    sprite_byte == s0.ram[s0.i + row],
                    start_x == (s0.v[x as int] % (DISPLAY_WIDTH as u8)) as int,
                    start_y == (s0.v[y as int] % (DISPLAY_HEIGHT as u8)) as int,
                    col <= 8,
                    self.ram == old(self).ram,
                    self.v_reg == old(self).v_reg,
                    self.stack == old(self).stack,
                    self.keys == old(self).keys,
                    self.i_reg == old(self).i_reg,
                    self.pc == old(self).pc,
                    self.sp == old(self).sp,
                    self.delay_timer == old(self).delay_timer,
                    self.sound_timer == old(self).sound_timer,
                    forall|k: int|
                        0 <= k < DISPLAY_SIZE ==> #[trigger] self.display@[k] == (s0.display[k]
                            != (s0.draw_hits_index(x, y, n, k) && draw_order(s0, x, y, k) < row
                            * 8 + col)),
                    collision == exists|k: int|
                        0 <= k < DISPLAY_SIZE && #[trigger] s0.draw_hits_index(x, y, n, k)
                            && draw_order(s0, x, y, k) < row * 8 + col && s0.display[k],
                decreases 8 - col,
            {
                let ghost cur = row * 8 + col;
                let ghost disp_before = self.display@;
                let ghost coll_before = collision;
                proof {
                    lemma_sprite_mask(sprite_byte, col);
                    lemma_draw_cell_unique(s0, x, y, n, row as int, col as int);
                }
                let target_x = start_x + col as usize;
                let target_y = start_y + row;
                if sprite_byte & (0x80u8 >> col) != 0 && target_x < 64 && target_y < 32 {
                    let idx = target_y * 64 + target_x;
                    proof {
                        lemma_draw_target(s0, x, y, n, row as int, col as int);
                    }
                    if self.display[idx] {
                        collision = true;
                    }
                    self.display[idx] = !self.display[idx];
                    proof {
                        assert forall|k: int| 0 <= k < DISPLAY_SIZE implies #[trigger] self.display@[k]
                            == (s0.display[k] != (s0.draw_hits_index(x, y, n, k) && draw_order(
                            s0, x, y, k) < cur + 1)) by {
                            if k != idx {
                                assert(disp_before[k] == self.display@[k]);
                            }
                        }
                        if collision {
                            if !coll_before {
                                assert(s0.draw_hits_index(x, y, n, idx as int));
                            }
                        } else {
                            assert forall|k: int|
                                0 <= k < DISPLAY_SIZE && #[trigger] s0.draw_hits_index(x, y, n, k)
                                    && draw_order(s0, x, y, k) < cur + 1
                                implies !s0.display[k] by {
                                if k != idx {
                                    assert(draw_order(s0, x, y, k) < cur);
                                }
                            }
                        }
                    }
                } else {
                    proof {
                        assert forall|k: int| 0 <= k < DISPLAY_SIZE implies #[trigger] self.display@[k]
                            == (s0.display[k] != (s0.draw_hits_index(x, y, n, k) && draw_order(
                            s0, x, y, k) < cur + 1)) by {
                            assert(disp_before[k] == self.display@[k]);
                        }
                        if !collision {
                            assert forall|k: int|
                                0 <= k < DISPLAY_SIZE && #[trigger] s0.draw_hits_index(x, y, n, k)
                                    && draw_order(s0, x, y, k) < cur + 1
                                implies !s0.display[k] by {
                                assert(draw_order(s0, x, y, k) < cur);
                            }
                        }
                    }
                }
                col = col + 1;
            }
            row = row + 1;
        }
        self.v_reg[15] = if collision { 1 } else { 0 };
        proof {
            assert forall|k: int| 0 <= k < DISPLAY_SIZE
                && #[trigger] s0.draw_hits_index(x, y, n, k)
                implies draw_order(s0, x, y, k) < row * 8 by {
                lemma_draw_order_bound(s0, x, y, n, k);
            }
            assert(self.display@ =~= s0.draw(x, y, n).display);
            assert(collision == s0.draw_collides(x, y, n));
            assert(self.v_reg@ =~= s0.draw(x, y, n).v);
        }
    }
}

impl CPU {
    /// `FX0A`.
    fn exec_wait_key(&mut self, x: u8)
        requires
            x < 16,
            old(self).pc >= 2,
        ensures
            final(self)@ == old(self)@.wait_key(x),
    {
        let keys = self.keys;
        let mut k: usize = 0;
        while k < NUM_KEYS
            invariant
                k <= NUM_KEYS,
                keys@ == old(self).keys@,
                forall|j: int| 0 <= j < k ==> !keys@[j],
            ensures
                k <= NUM_KEYS,
                k < NUM_KEYS ==> keys@[k as int],
                forall|j: int| 0 <= j < k ==> !keys@[j],
            decreases NUM_KEYS - k,
        {
            if keys[k] {
                break;
            }
            k = k + 1;
        }
        let ghost s0 = self@;
        if k < NUM_KEYS {
            self.v_reg[x as usize] = k as u8;
            proof {
                assert(is_lowest_pressed(s0.keys, k as int));
                let k2 = choose|k2: int| is_lowest_pressed(s0.keys, k2);
                assert(k2 == k as int) by {
                    if k2 < k as int {
                        assert(!keys@[k2]);
                    } else if k2 > k as int {
                        assert(!s0.keys[k as int]);
                    }
                }
            }
        } else {
            self.pc = self.pc - 2;
            proof {
                assert(!exists|k2: int| is_lowest_pressed(s0.keys, k2));
            }
        }
    }

    /// `FX33`.
    fn exec_store_bcd(&mut self, x: u8)
        requires
            x < 16,
            old(self).i_reg + 2 < RAM_SIZE,
        ensures
            final(self)@ == old(self)@.execute(Instruction::StoreBcd { x }, 0),
    {
        let value = self.v_reg[x as usize];
        let i = self.i_reg as usize;
        self.ram[i] = value / 100;
        self.ram[i + 1] = (value / 10) % 10;
        self.ram[i + 2] = value % 10;
    }

    /// `FX55`.
    fn exec_store_regs(&mut self, x: u8)
        requires
            x < 16,
            old(self).i_reg + x < RAM_SIZE,
        ensures
            final(self)@ == old(self)@.execute(Instruction::StoreRegs { x }, 0),
    {
        let base = self.i_reg as usize;
        let last = x as usize;
        let mut k: usize = 0;
        while k <= last
            invariant
                last == x,
                x < 16,
                base == old(self).i_reg,
                base + last < RAM_SIZE,
                k <= last + 1,
                self.v_reg == old(self).v_reg,
                self.stack == old(self).stack,
                self.display == old(self).display,
                self.keys == old(self).keys,
                self.i_reg == old(self).i_reg,
                self.pc == old(self).pc,
                self.sp == old(self).sp,
                self.delay_timer == old(self).delay_timer,
                self.sound_timer == old(self).sound_timer,
                forall|a: int|
                    0 <= a < RAM_SIZE ==> #[trigger] self.ram@[a] == if base <= a < base + k {
                        old(self).v_reg@[a - base]
                    } else {
                        old(self).ram@[a]
                    },
            decreases last + 1 - k,
        {
            self.ram[base + k] = self.v_reg[k];
            k = k + 1;
        }
        assert(self.ram@ =~= old(self)@.execute(Instruction::StoreRegs { x }, 0).ram);
    }

    /// `FX65`.
    fn exec_load_regs(&mut self, x: u8)
        requires
            x < 16,
            old(self).i_reg + x < RAM_SIZE,
        ensures
            final(self)@ == old(self)@.execute(Instruction::LoadRegs { x }, 0),
    {
        let base = self.i_reg as usize;
        let last = x as usize;
        let mut k: usize = 0;
        while k <= last
            invariant
                last == x,
                x < 16,
                base == old(self).i_reg,
                base + last < RAM_SIZE,
                k <= last + 1,
                self.ram == old(self).ram,
                self.stack == old(self).stack,
                self.display == old(self).display,
                self.keys == old(self).keys,
                self.i_reg == old(self).i_reg,
                self.pc == old(self).pc,
                self.sp == old(self).sp,
                self.delay_timer == old(self).delay_timer,
                self.sound_timer == old(self).sound_timer,
                forall|j: int|
                    0 <= j < NUM_REGS ==> #[trigger] self.v_reg@[j] == if j < k {
                        old(self).ram@[base + j]
                    } else {
                        old(self).v_reg@[j]
                    },
            decreases last + 1 - k,
        {
            self.v_reg[k] = self.ram[base + k];
            k = k + 1;
        }
        assert(self.v_reg@ =~= old(self)@.execute(Instruction::LoadRegs { x }, 0).v);
    }

    /// Carries out one decoded instruction; the program counter has already
    /// moved past its opcode. `random_byte` is what `CXNN` uses.
    #[verifier::rlimit(40)]
    fn execute(&mut self, ins: Instruction, random_byte: u8)
        requires
            ins.wf(),
            old(self)@.execute_fault(ins) is None,
            2 <= old(self).pc <= RAM_SIZE,
        ensures
            final(self)@ == old(self)@.execute(ins, random_byte),
    {
        let ghost s0 = self@;
        match ins {
            Instruction::ClearScreen => {
                self.display = [false; DISPLAY_SIZE];
                assert(self.display@ =~= s0.execute(ins, random_byte).display);
            },
            Instruction::Return => {
                self.sp = self.sp - 1;
                self.pc = self.stack[self.sp as usize];
            },
            Instruction::Jump { addr } => {
                self.pc = addr;
            },
            Instruction::Call { addr } => {
                self.stack[self.sp as usize] = self.pc;
                self.sp = self.sp + 1;
                self.pc = addr;
            },
            Instruction::SkipIfEqualImm { x, nn } => {
                if self.v_reg[x as usize] == nn {
                    self.pc = self.pc + 2;
                }
            },
            Instruction::SkipIfNotEqualImm { x, nn } => {
                if self.v_reg[x as usize] != nn {
                    self.pc = self.pc + 2;
                }
            },
            Instruction::SkipIfEqualReg { x, y } => {
                if self.v_reg[x as usize] == self.v_reg[y as usize] {
                    self.pc = self.pc + 2;
                }
            },
            Instruction::LoadImm { x, nn } => {
                self.v_reg[x as usize] = nn;
            },
            Instruction::AddImm { x, nn } => {
                self.v_reg[x as usize] = self.v_reg[x as usize].wrapping_add(nn);
            },
            Instruction::Move { x, y } => {
                self.v_reg[x as usize] = self.v_reg[y as usize];
            },
            Instruction::Or { x, y } => {
                self.v_reg[x as usize] = self.v_reg[x as usize] | self.v_reg[y as usize];
            },
            Instruction::And { x, y } => {
                self.v_reg[x as usize] = self.v_reg[x as usize] & self.v_reg[y as usize];
            },
            Instruction::Xor { x, y } => {
                self.v_reg[x as usize] = self.v_reg[x as usize] ^ self.v_reg[y as usize];
            },
            Instruction::AddReg { x, y } => {
                let sum: u16 = self.v_reg[x as usize] as u16 + self.v_reg[y as usize] as u16;
                self.v_reg[x as usize] = (sum % 256) as u8;
                self.v_reg[15] = if sum >= 256 { 1 } else { 0 };
            },
            Instruction::SubReg { x, y } => {
                let a = self.v_reg[x as usize];
                let b = self.v_reg[y as usize];
                let no_borrow = a >= b;
                self.v_reg[x as usize] = if no_borrow { a - b } else { (a as u16 + 256 - b as u16) as u8 };
                self.v_reg[15] = if no_borrow { 1 } else { 0 };
            },
            Instruction::ShiftRight { x, .. } => {
                let value = self.v_reg[x as usize];
                self.v_reg[x as usize] = value / 2;
                self.v_reg[15] = value % 2;
            },
            Instruction::SubReverse { x, y } => {
                let a = self.v_reg[y as usize];
                let b = self.v_reg[x as usize];
                let no_borrow = a >= b;
                self.v_reg[x as usize] = if no_borrow { a - b } else { (a as u16 + 256 - b as u16) as u8 };
                self.v_reg[15] = if no_borrow { 1 } else { 0 };
            },
            Instruction::ShiftLeft { x, .. } => {
                let value = self.v_reg[x as usize];
                self.v_reg[x as usize] = ((value as u16 * 2) % 256) as u8;
                self.v_reg[15] = value / 128;
            },
            Instruction::SkipIfNotEqualReg { x, y } => {
                if self.v_reg[x as usize] != self.v_reg[y as usize] {
                    self.pc = self.pc + 2;
                }
            },
            Instruction::LoadIndex { addr } => {
                self.i_reg = addr;
            },
            Instruction::JumpOffset { addr } => {
                self.pc = addr + self.v_reg[0] as u16;
            },
            Instruction::Random { x, nn } => {
                self.v_reg[x as usize] = random_byte & nn;
            },
            Instruction::Draw { x, y, n } => {
                self.exec_draw(x, y, n);
            },
            Instruction::SkipIfKey { x } => {
                let key = self.v_reg[x as usize];
                if self.keys[key as usize] {
                    self.pc = self.pc + 2;
                }
            },
            Instruction::SkipIfNotKey { x } => {
                let key = self.v_reg[x as usize];
                if !self.keys[key as usize] {
                    self.pc = self.pc + 2;
                }
            },
            Instruction::LoadDelay { x } => {
                self.v_reg[x as usize] = self.delay_timer;
            },
            Instruction::WaitKey { x } => {
                self.exec_wait_key(x);
            },
            Instruction::SetDelay { x } => {
                self.delay_timer = self.v_reg[x as usize];
            },
            Instruction::SetSound { x } => {
                self.sound_timer = self.v_reg[x as usize];
            },
            Instruction::AddIndex { x } => {
                self.i_reg = self.i_reg.wrapping_add(self.v_reg[x as usize] as u16);
            },
            Instruction::FontChar { x } => {
                self.i_reg = FONT_START as u16 + self.v_reg[x as usize] as u16 * 5;
            },
            Instruction::StoreBcd { x } => {
                self.exec_store_bcd(x);
            },
            Instruction::StoreRegs { x } => {
                self.exec_store_regs(x);
            },
            Instruction::LoadRegs { x } => {
                self.exec_load_regs(x);
            },
        }
    }
}

impl CPU {
    /// The opcode at the program counter, high byte first.
    fn fetch_opcode(&self) -> (op: u16)
        requires
            self.pc + 1 < RAM_SIZE,
        ensures
            op == self@.fetch(),
    {
        let byte1 = self.ram[self.pc as usize] as u16;
        let byte2 = self.ram[(self.pc + 1) as usize] as u16;
        byte1 * 256 + byte2
    }

    /// Says whether a cycle can run from the current state, and if not,
    /// which fault it would meet.
    pub fn check_tick(&self) -> (res: Result<(), TickFault>)
        ensures
            res == (match self@.tick_fault() {
                None => Ok(()),
                Some(fault) => Err(fault),
            }),
    {
        if self.pc as usize + 1 >= RAM_SIZE {
            return Err(TickFault::PcOutOfMemory);
        }
        let op = self.fetch_opcode();
        let ins = match decode(op) {
            None => {
                return Err(TickFault::UnknownOpcode { opcode: op });
            },
            Some(ins) => ins,
        };
        // The state after the program counter moves past the opcode differs
        // from this one only in the program counter, which no fault reads.
        let fault = match ins {
            Instruction::Return => {
                if self.sp == 0 {
                    Some(TickFault::StackUnderflow)
                } else if self.sp as usize > STACK_SIZE {
                    Some(TickFault::StackOverflow)
                } else {
                    None
                }
            },
            Instruction::Call { .. } => {
                if self.sp as usize >= STACK_SIZE {
                    Some(TickFault::StackOverflow)
                } else {
                    None
                }
            },
            Instruction::Draw { n, .. } => {
                if n > 0 && self.i_reg as usize + n as usize > RAM_SIZE {
                    Some(TickFault::MemoryOutOfRange)
                } else {
                    None
                }
            },
            Instruction::SkipIfKey { x } | Instruction::SkipIfNotKey { x } => {
                if self.v_reg[x as usize] as usize >= NUM_KEYS {
                    Some(TickFault::KeyOutOfRange)
                } else {
                    None
                }
            },
            Instruction::StoreBcd { .. } => {
                if self.i_reg as usize + 2 >= RAM_SIZE {
                    Some(TickFault::MemoryOutOfRange)
                } else {
                    None
                }
            },
            Instruction::StoreRegs { x } | Instruction::LoadRegs { x } => {
                if self.i_reg as usize + x as usize >= RAM_SIZE {
                    Some(TickFault::MemoryOutOfRange)
                } else {
                    None
                }
            },
            _ => None,
        };
        match fault {
            None => Ok(()),
            Some(f) => Err(f),
        }
    }

    /// One cycle with a given random byte: fetch the opcode at the program
    /// counter, move past it, decode it and execute it; `CXNN` uses
    /// `random_byte`.
    pub fn tick_with_random(&mut self, random_byte: u8)
        requires
            old(self)@.can_tick(),
        ensures
            final(self)@ == old(self)@.ticked(random_byte),
    {
        let op = self.fetch_opcode();
        self.pc = self.pc + 2;
        match decode(op) {
            Some(ins) => {
                self.execute(ins, random_byte);
            },
            None => {},
        }
    }

    /// One cycle of the machine: fetch, decode, execute. A `CXNN`
    /// instruction draws its byte from the machine's random generator, which
    /// the first such instruction seeds from the operating system's entropy
    /// source. If that seeding fails, the cycle does not run, the machine is
    /// left unchanged and the result is `RandomUnavailable`; once seeded,
    /// the generator never fails. Every other instruction draws no byte and
    /// always runs, and its result is the same for every byte (see
    /// `laws::lemma_tick_random_only_for_cxnn`).
    pub fn tick(&mut self) -> (res: Result<(), TickFault>)
        requires
            old(self)@.can_tick(),
        ensures
            res is Ok ==> exists|r: u8| final(self)@ == #[trigger] old(self)@.ticked(r),
            res is Err ==> {
                &&& res == Err::<(), TickFault>(TickFault::RandomUnavailable)
                &&& final(self)@ == old(self)@
                &&& old(self)@.next_instruction() is Random
                &&& !old(self).has_generator()
            },
            !(old(self)@.next_instruction() is Random) ==> res is Ok,
            old(self).has_generator() ==> res is Ok,
            old(self).has_generator() ==> final(self).has_generator(),
    {
        let op = self.fetch_opcode();
        proof {
            assert((op / 0x1000 == 0xC) == (self@.next_instruction() is Random));
        }
        let saved = self.generator.take();
        let (r, kept): (u8, Option<StdRng>) = if op / 0x1000 == 0xC {
            let mut generator = match saved {
                Some(g) => g,
                None => match seed_generator() {
                    Some(g) => g,
                    None => {
                        return Err(TickFault::RandomUnavailable);
                    },
                },
            };
            let b = next_byte(&mut generator);
            (b, Some(generator))
        } else {
            (0, saved)
        };
        self.tick_with_random(r);
        self.generator = kept;
        assert(self@ == old(self)@.ticked(r));
        Ok(())
    }
}

impl CPU {
    /// One 60 Hz frame with given random bytes: set the keypad to `keys`,
    /// run `CYCLES_PER_FRAME` cycles, cycle `k` using `rs[k]` if it needs a
    /// random byte, then one timer step. Returns whether the beep sounds. A
    /// cycle that would meet a fault is not run: the frame stops there,
    /// without the timer step, and returns the fault.
    pub fn run_frame_with_random(&mut self, keys: [bool; NUM_KEYS], rs: [u8; CYCLES_PER_FRAME]) -> (res:
        Result<bool, TickFault>)
        ensures
            (final(self)@, res) == old(self)@.frame(keys@, rs@),
    {
        self.keys = keys;
        let ghost s1 = self@;
        assert(s1 == old(self)@.with_keys(keys@));
        let mut k: usize = 0;
        while k < CYCLES_PER_FRAME
            invariant
                k <= CYCLES_PER_FRAME,
                s1 == old(self)@.with_keys(keys@),
                rs@.len() == CYCLES_PER_FRAME,
                self@ == s1.run_cycles(rs@, k as nat).0,
                s1.run_cycles(rs@, k as nat).1 is None,
            decreases CYCLES_PER_FRAME - k,
        {
            match self.check_tick() {
                Err(fault) => {
                    proof {
                        assert(s1.run_cycles(rs@, (k + 1) as nat) == (self@, Some(fault)));
                        lemma_run_cycles_stops(s1, rs@, (k + 1) as nat, CYCLES_PER_FRAME as nat);
                    }
                    return Err(fault);
                },
                Ok(()) => {},
            }
            self.tick_with_random(rs[k]);
            k = k + 1;
        }
        let beep = self.tick_timers();
        Ok(beep)
    }

    /// One 60 Hz frame: set the keypad to `keys`, run `CYCLES_PER_FRAME`
    /// cycles, then one timer step, as `run_frame_with_random` does for some
    /// bytes, which `CXNN` draws from the machine's random generator (see
    /// `tick`). If seeding the generator fails, the frame stops before that
    /// cycle and returns `RandomUnavailable`; once the generator is seeded
    /// that cannot happen.
    pub fn run_frame(&mut self, keys: [bool; NUM_KEYS]) -> (res: Result<bool, TickFault>)
        ensures
            res != Err::<bool, TickFault>(TickFault::RandomUnavailable) ==> exists|rs: Seq<u8>|
                rs.len() == CYCLES_PER_FRAME && #[trigger] old(self)@.frame(keys@, rs) == (
                final(self)@,
                res,
            ),
            res == Err::<bool, TickFault>(TickFault::RandomUnavailable) ==> exists|
                rs: Seq<u8>,
                k: nat,
            |
                k < CYCLES_PER_FRAME && #[trigger] old(self)@.with_keys(keys@).run_cycles(rs, k) == (
                final(self)@,
                None::<TickFault>,
            ) && final(self)@.can_tick() && final(self)@.next_instruction() is Random,
            old(self).has_generator() ==> res != Err::<bool, TickFault>(
                TickFault::RandomUnavailable,
            ),
    {
        self.keys = keys;
        let ghost s1 = self@;
        assert(s1 == old(self)@.with_keys(keys@));
        let ghost mut used: Seq<u8> = Seq::empty();
        let mut k: usize = 0;
        while k < CYCLES_PER_FRAME
            invariant
                k <= CYCLES_PER_FRAME,
                s1 == old(self)@.with_keys(keys@),
                used.len() == k,
                old(self).has_generator() ==> self.has_generator(),
                self@ == s1.run_cycles(used, k as nat).0,
                s1.run_cycles(used, k as nat).1 is None,
            decreases CYCLES_PER_FRAME - k,
        {
            match self.check_tick() {
                Err(fault) => {
                    proof {
                        let rs = used + Seq::new((CYCLES_PER_FRAME - k) as nat, |i: int| 0u8);
                        lemma_run_cycles_prefix(s1, used, rs, k as nat);
                        assert(s1.run_cycles(rs, (k + 1) as nat) == (self@, Some(fault)));
                        lemma_run_cycles_stops(s1, rs, (k + 1) as nat, CYCLES_PER_FRAME as nat);
                        assert(old(self)@.frame(keys@, rs) == (self@, Err::<bool, TickFault>(fault)));
                    }
                    return Err(fault);
                },
                Ok(()) => {},
            }
            let ghost before = self@;
            match self.tick() {
                Err(fault) => {
                    proof {
                        assert(s1.run_cycles(used, k as nat) == (self@, None::<TickFault>));
                    }
                    return Err(fault);
                },
                Ok(()) => {},
            }
            proof {
                let r = choose|r: u8| self@ == #[trigger] before.ticked(r);
                let next = used.push(r);
                lemma_run_cycles_prefix(s1, used, next, k as nat);
                used = next;
            }
            k = k + 1;
        }
        let beep = self.tick_timers();
        proof {
            assert(old(self)@.frame(keys@, used) == (self@, Ok::<bool, TickFault>(beep)));
        }
        Ok(beep)
    }
}

} // verus!

//! The mathematical model of the machine and the meaning of each
//! instruction over it.

use vstd::prelude::*;
use crate::constants::{
    CYCLES_PER_FRAME, DISPLAY_HEIGHT, DISPLAY_SIZE, DISPLAY_WIDTH, FONTSET, FONTSET_SIZE, FONT_START, NUM_KEYS,
    NUM_REGS, PROGRAM_START, RAM_SIZE, STACK_SIZE,
};
use crate::instruction::{decode_spec, Instruction};

verus! {

/// Why a cycle cannot run from a given state.
#[derive(Clone, Copy, Debug, PartialEq, Eq)]
pub enum TickFault {
    /// The program counter does not point at two bytes of memory.
    PcOutOfMemory,
    /// The opcode at the program counter is outside the instruction set.
    UnknownOpcode { opcode: u16 },
    /// A call with a full stack, or a return with the stack pointer past the stack.
    StackOverflow,
    /// A return with an empty stack.
    StackUnderflow,
    /// The instruction reads or writes memory past its end.
    MemoryOutOfRange,
    /// A key instruction names a key above `F`.
    KeyOutOfRange,
    /// `CXNN` needs a random byte and the system's entropy source gave none.
    RandomUnavailable,
}

/// The whole state of the machine, as sequences and integers.
#[verifier::ext_equal]
pub struct MachineState {
    pub ram: Seq<u8>,
    pub v: Seq<u8>,
    pub i: u16,
    pub pc: u16,
    pub stack: Seq<u16>,
    pub sp: u16,
    pub display: Seq<bool>,
    pub keys: Seq<bool>,
    pub delay_timer: u8,
    pub sound_timer: u8,
}

/// Pixel `col` (0 leftmost) of a sprite row: bit `7 - col` of the row byte.
pub open spec fn sprite_pixel(row_byte: u8, col: int) -> bool {
    (row_byte >> ((7 - col) as u8)) & 1u8 == 1u8
}

/// `k` is the lowest key that is down.
pub open spec fn is_lowest_pressed(keys: Seq<bool>, k: int) -> bool {
    &&& 0 <= k < NUM_KEYS
    &&& keys[k]
    &&& forall|j: int| 0 <= j < k ==> !keys[j]
}

impl MachineState {
    /// Every sequence has the length of the memory it models.
    pub open spec fn wf(self) -> bool {
        &&& self.ram.len() == RAM_SIZE
        &&& self.v.len() == NUM_REGS
        &&& self.stack.len() == STACK_SIZE
        &&& self.display.len() == DISPLAY_SIZE
        &&& self.keys.len() == NUM_KEYS
    }

    /// The state of a machine that was just switched on: memory zero but
    /// for the font at `FONT_START`, execution at `PROGRAM_START`, all else
    /// zero, off or up.
    pub open spec fn power_on() -> MachineState {
        MachineState {
            ram: Seq::new(
                RAM_SIZE as nat,
                |a: int|
                    if FONT_START <= a < FONT_START + FONTSET_SIZE {
                        FONTSET@[a - FONT_START]
                    } else {
                        0u8
                    },
            ),
            v: Seq::new(NUM_REGS as nat, |k: int| 0u8),
            i: 0,
            pc: PROGRAM_START as u16,
            stack: Seq::new(STACK_SIZE as nat, |k: int| 0u16),
            sp: 0,
            display: Seq::new(DISPLAY_SIZE as nat, |k: int| false),
            keys: Seq::new(NUM_KEYS as nat, |k: int| false),
            delay_timer: 0,
            sound_timer: 0,
        }
    }

    /// The state with `rom` copied into memory from `PROGRAM_START` on.
    pub open spec fn with_rom(self, rom: Seq<u8>) -> MachineState {
        MachineState {
            ram: Seq::new(
                self.ram.len(),
                |a: int|
                    if PROGRAM_START <= a < PROGRAM_START + rom.len() {
                        rom[a - PROGRAM_START]
                    } else {
                        self.ram[a]
                    },
            ),
            ..self
        }
    }

    /// Both timers one lower, where they are not zero already.
    pub open spec fn timers_ticked(self) -> MachineState {
        MachineState {
            delay_timer: if self.delay_timer > 0 { (self.delay_timer - 1) as u8 } else { 0 },
            sound_timer: if self.sound_timer > 0 { (self.sound_timer - 1) as u8 } else { 0 },
            ..self
        }
    }

    /// A timer tick sounds the beep: the sound timer runs out now.
    pub open spec fn beeps(self) -> bool {
        self.sound_timer == 1
    }

    /// The opcode at the program counter, high byte first.
    pub open spec fn fetch(self) -> u16 {
        (self.ram[self.pc as int] as int * 256 + self.ram[self.pc + 1] as int) as u16
    }

    /// The state with the program counter past the fetched opcode.
    pub open spec fn advanced(self) -> MachineState {
        MachineState { pc: (self.pc + 2) as u16, ..self }
    }

    /// The state with the keypad set to `keys`.
    pub open spec fn with_keys(self, keys: Seq<bool>) -> MachineState {
        MachineState { keys, ..self }
    }

    /// Up to `n` cycles, cycle `k` drawing `rs[k]` if it needs a random
    /// byte; the run stops before the first cycle that meets a fault, and
    /// names that fault.
    pub open spec fn run_cycles(self, rs: Seq<u8>, n: nat) -> (MachineState, Option<TickFault>)
        decreases n,
    {
        if n == 0 {
            (self, None)
        } else {
            let prev = self.run_cycles(rs, (n - 1) as nat);
            if prev.1 is Some {
                prev
            } else if prev.0.tick_fault() is Some {
                (prev.0, prev.0.tick_fault())
            } else {
                (prev.0.ticked(rs[n - 1]), None)
            }
        }
    }

    /// One 60 Hz frame: set the keypad, run `CYCLES_PER_FRAME` cycles
    /// (stopping at the first fault, which the frame then reports), then one
    /// timer step, whose beep the frame reports.
    pub open spec fn frame(self, keys: Seq<bool>, rs: Seq<u8>) -> (
        MachineState,
        Result<bool, TickFault>,
    ) {
        let ran = self.with_keys(keys).run_cycles(rs, CYCLES_PER_FRAME as nat);
        match ran.1 {
            Some(fault) => (ran.0, Err(fault)),
            None => (ran.0.timers_ticked(), Ok(ran.0.beeps())),
        }
    }

    /// The fault that a cycle from this state meets, if any.
    pub open spec fn tick_fault(self) -> Option<TickFault> {
        if self.pc + 1 >= RAM_SIZE {
            Some(TickFault::PcOutOfMemory)
        } else {
            match decode_spec(self.fetch()) {
                None => Some(TickFault::UnknownOpcode { opcode: self.fetch() }),
                Some(ins) => self.advanced().execute_fault(ins),
            }
        }
    }

    /// A cycle runs from this state.
    pub open spec fn can_tick(self) -> bool {
        self.tick_fault() is None
    }

    /// The instruction at the program counter.
    pub open spec fn next_instruction(self) -> Instruction {
        decode_spec(self.fetch())->0
    }

    /// The state after one cycle that draws `random_byte` if it needs one:
    /// fetch, move past the opcode, decode, execute.
    pub open spec fn ticked(self, random_byte: u8) -> MachineState {
        self.advanced().execute(self.next_instruction(), random_byte)
    }

    /// The fault that executing `ins` from this state meets, if any.
    pub open spec fn execute_fault(self, ins: Instruction) -> Option<TickFault> {
        match ins {
            Instruction::Return => {
                if self.sp == 0 {
                    Some(TickFault::StackUnderflow)
                } else if self.sp > STACK_SIZE {
                    Some(TickFault::StackOverflow)
                } else {
                    None
                }
            },
            Instruction::Call { .. } => {
                if self.sp >= STACK_SIZE { Some(TickFault::StackOverflow) } else { None }
            },
            Instruction::Draw { n, .. } => {
                if n > 0 && self.i + n > RAM_SIZE {
                    Some(TickFault::MemoryOutOfRange)
                } else {
                    None
                }
            },
            Instruction::SkipIfKey { x } | Instruction::SkipIfNotKey { x } => {
                if self.v[x as int] >= NUM_KEYS { Some(TickFault::KeyOutOfRange) } else { None }
            },
            Instruction::StoreBcd { .. } => {
                if self.i + 2 >= RAM_SIZE { Some(TickFault::MemoryOutOfRange) } else { None }
            },
            Instruction::StoreRegs { x } | Instruction::LoadRegs { x } => {
                if self.i + x >= RAM_SIZE { Some(TickFault::MemoryOutOfRange) } else { None }
            },
            _ => None,
        }
    }

    /// The state with register `x` set to `val`.
    pub open spec fn set_v(self, x: int, val: u8) -> MachineState {
        MachineState { v: self.v.update(x, val), ..self }
    }

    /// The state that skips the next instruction when `cond` holds.
    pub open spec fn skip_if(self, cond: bool) -> MachineState {
        if cond { MachineState { pc: (self.pc + 2) as u16, ..self } } else { self }
    }

    /// Whether `Draw { x, y, n }` turns pixel (`px`, `py`) over: the sprite
    /// is placed at (`VX` mod width, `VY` mod height) and clipped at the
    /// right and bottom edges; row `r` of it is memory at `I + r`.
    pub open spec fn draw_hits(self, x: u8, y: u8, n: u8, px: int, py: int) -> bool {
        let sx = (self.v[x as int] % (DISPLAY_WIDTH as u8)) as int;
        let sy = (self.v[y as int] % (DISPLAY_HEIGHT as u8)) as int;
        &&& 0 <= px < DISPLAY_WIDTH
        &&& 0 <= py < DISPLAY_HEIGHT
        &&& sx <= px < sx + 8
        &&& sy <= py < sy + n
        &&& sprite_pixel(self.ram[self.i + (py - sy)], px - sx)
    }

    /// Whether `Draw { x, y, n }` turns over display pixel `k` (row-major).
    pub open spec fn draw_hits_index(self, x: u8, y: u8, n: u8, k: int) -> bool {
        self.draw_hits(x, y, n, k % (DISPLAY_WIDTH as int), k / (DISPLAY_WIDTH as int))
    }

    /// Whether `Draw { x, y, n }` turns a lit pixel off.
    pub open spec fn draw_collides(self, x: u8, y: u8, n: u8) -> bool {
        exists|k: int|
            0 <= k < DISPLAY_SIZE && #[trigger] self.draw_hits_index(x, y, n, k) && self.display[k]
    }

    /// `Draw { x, y, n }`: each pixel that the sprite covers is flipped
    /// (XOR), and `VF` is 1 exactly when a lit pixel went off.
    pub open spec fn draw(self, x: u8, y: u8, n: u8) -> MachineState {
        MachineState {
            display: Seq::new(
                self.display.len(),
                |k: int| self.display[k] != self.draw_hits_index(x, y, n, k),
            ),
            v: self.v.update(0xF, if self.draw_collides(x, y, n) { 1u8 } else { 0u8 }),
            ..self
        }
    }

    /// `FX0A`: the lowest key that is down goes to `VX`; with no key down,
    /// the program counter steps back so that the instruction runs again.
    pub open spec fn wait_key(self, x: u8) -> MachineState {
        if exists|k: int| is_lowest_pressed(self.keys, k) {
            self.set_v(x as int, (choose|k: int| is_lowest_pressed(self.keys, k)) as u8)
        } else {
            MachineState { pc: (self.pc - 2) as u16, ..self }
        }
    }

    /// The meaning of each instruction; `random_byte` is what `CXNN` draws.
    pub open spec fn execute(self, ins: Instruction, random_byte: u8) -> MachineState {
        let v = self.v;
        match ins {
            Instruction::ClearScreen => MachineState {
                display: Seq::new(self.display.len(), |k: int| false),
                ..self
            },
            Instruction::Return => MachineState {
                sp: (self.sp - 1) as u16,
                pc: self.stack[self.sp - 1],
                ..self
            },
            Instruction::Jump { addr } => MachineState { pc: addr, ..self },
            Instruction::Call { addr } => MachineState {
                stack: self.stack.update(self.sp as int, self.pc),
                sp: (self.sp + 1) as u16,
                pc: addr,
                ..self
            },
            Instruction::SkipIfEqualImm { x, nn } => self.skip_if(v[x as int] == nn),
            Instruction::SkipIfNotEqualImm { x, nn } => self.skip_if(v[x as int] != nn),
            Instruction::SkipIfEqualReg { x, y } => self.skip_if(v[x as int] == v[y as int]),
            Instruction::LoadImm { x, nn } => self.set_v(x as int, nn),
            Instruction::AddImm { x, nn } => self.set_v(x as int, ((v[x as int] + nn) % 256) as u8),
            Instruction::Move { x, y } => self.set_v(x as int, v[y as int]),
            Instruction::Or { x, y } => self.set_v(x as int, v[x as int] | v[y as int]),
            Instruction::And { x, y } => self.set_v(x as int, v[x as int] & v[y as int]),
            Instruction::Xor { x, y } => self.set_v(x as int, v[x as int] ^ v[y as int]),
            Instruction::AddReg { x, y } => {
                let sum = v[x as int] + v[y as int];
                self.set_v(x as int, (sum % 256) as u8).set_v(0xF, if sum >= 256 { 1 } else { 0 })
            },
            Instruction::SubReg { x, y } => {
                let diff = v[x as int] - v[y as int];
                self.set_v(x as int, (diff % 256) as u8).set_v(0xF, if diff >= 0 { 1 } else { 0 })
            },
            Instruction::ShiftRight { x, .. } => {
                self.set_v(x as int, v[x as int] / 2).set_v(0xF, v[x as int] % 2)
            },
            Instruction::SubReverse { x, y } => {
                let diff = v[y as int] - v[x as int];
                self.set_v(x as int, (diff % 256) as u8).set_v(0xF, if diff >= 0 { 1 } else { 0 })
            },
            Instruction::ShiftLeft { x, .. } => {
                self.set_v(x as int, ((v[x as int] * 2) % 256) as u8).set_v(0xF, v[x as int] / 128)
            },
            Instruction::SkipIfNotEqualReg { x, y } => self.skip_if(v[x as int] != v[y as int]),
            Instruction::LoadIndex { addr } => MachineState { i: addr, ..self },
            Instruction::JumpOffset { addr } => MachineState {
                pc: (addr + v[0]) as u16,
                ..self
            },
            Instruction::Random { x, nn } => self.set_v(x as int, random_byte & nn),
            Instruction::Draw { x, y, n } => self.draw(x, y, n),
            Instruction::SkipIfKey { x } => self.skip_if(self.keys[v[x as int] as int]),
            Instruction::SkipIfNotKey { x } => self.skip_if(!self.keys[v[x as int] as int]),
            Instruction::LoadDelay { x } => self.set_v(x as int, self.delay_timer),
            Instruction::WaitKey { x } => self.wait_key(x),
            Instruction::SetDelay { x } => MachineState { delay_timer: v[x as int], ..self },
            Instruction::SetSound { x } => MachineState { sound_timer: v[x as int], ..self },
            Instruction::AddIndex { x } => MachineState {
                i: ((self.i + v[x as int]) % 0x10000) as u16,
                ..self
            },
            Instruction::FontChar { x } => MachineState {
                i: (FONT_START + v[x as int] * 5) as u16,
                ..self
            },
            Instruction::StoreBcd { x } => {
                let val = v[x as int];
                MachineState {
                    ram: self.ram.update(self.i as int, val / 100).update(
                        self.i + 1,
                        (val / 10) % 10,
                    ).update(self.i + 2, val % 10),
                    ..self
                }
            },
            Instruction::StoreRegs { x } => MachineState {
                ram: Seq::new(
                    self.ram.len(),
                    |a: int| if self.i <= a <= self.i + x { v[a - self.i] } else { self.ram[a] },
                ),
                ..self
            },
            Instruction::LoadRegs { x } => MachineState {
                v: Seq::new(v.len(), |k: int| if k <= x { self.ram[self.i + k] } else { v[k] }),
                ..self
            },
        }
    }
}

/// A run of `n` cycles depends only on the first `n` random bytes.
pub proof fn lemma_run_cycles_prefix(s: MachineState, rs1: Seq<u8>, rs2: Seq<u8>, n: nat)
    requires
        n <= rs1.len(),
        n <= rs2.len(),
        forall|i: int| 0 <= i < n ==> rs1[i] == rs2[i],
    ensures
        s.run_cycles(rs1, n) == s.run_cycles(rs2, n),
    decreases n,
{
    if n > 0 {
        lemma_run_cycles_prefix(s, rs1, rs2, (n - 1) as nat);
    }
}

/// Once a run has met a fault, running longer changes nothing.
pub proof fn lemma_run_cycles_stops(s: MachineState, rs: Seq<u8>, k: nat, m: nat)
    requires
        k <= m,
        s.run_cycles(rs, k).1 is Some,
    ensures
        s.run_cycles(rs, m) == s.run_cycles(rs, k),
    decreases m - k,
{
    if m > k {
        lemma_run_cycles_stops(s, rs, k, (m - 1) as nat);
    }
}

} // verus!

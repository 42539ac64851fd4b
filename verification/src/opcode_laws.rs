//! What one cycle does, for each opcode of the instruction set, stated over
//! the opcode's digits and the fields of the machine before and after.

use vstd::prelude::*;
use crate::constants::{
    DISPLAY_SIZE, FONTSET, FONTSET_SIZE, FONT_START, NUM_KEYS, PROGRAM_START, RAM_SIZE, STACK_SIZE,
};
use crate::cpu::{lemma_draw_target, lemma_sprite_mask};
use crate::instruction::{encode, lemma_decode_of_encode, Instruction};
use crate::machine::{is_lowest_pressed, MachineState};

verus! {

/// The cycle decodes `ins` when the opcode at the program counter encodes it.
proof fn lemma_next_is(s: MachineState, ins: Instruction)
    requires
        ins.wf(),
        s.fetch() == encode(ins),
    ensures
        s.next_instruction() == ins,
{
    lemma_decode_of_encode(ins);
}

/// `t` and `s` agree on everything but the registers and the program counter.
pub open spec fn same_outside_registers(t: MachineState, s: MachineState) -> bool {
    &&& t.ram == s.ram
    &&& t.i == s.i
    &&& t.stack == s.stack
    &&& t.sp == s.sp
    &&& t.display == s.display
    &&& t.keys == s.keys
    &&& t.delay_timer == s.delay_timer
    &&& t.sound_timer == s.sound_timer
}

/// Every register but `x` (and `VF` when `flag`) is as in `s`.
pub open spec fn other_registers_kept(t: MachineState, s: MachineState, x: int, flag: bool) -> bool {
    forall|k: int| 0 <= k < 16 && k != x && !(flag && k == 0xF) ==> t.v[k] == s.v[k]
}

/// `6XNN` sets `VX` to `NN`, whatever it held, and nothing else but the
/// program counter, which moves to the next instruction.
pub proof fn law_load_immediate(s: MachineState, x: u8, nn: u8, r: u8)
    requires
        s.wf(),
        s.pc + 1 < RAM_SIZE,
        x < 16,
        s.fetch() == 0x6000 + x * 0x100 + nn,
    ensures
        s.ticked(r).v[x as int] == nn,
        other_registers_kept(s.ticked(r), s, x as int, false),
        s.ticked(r).pc == s.pc + 2,
        same_outside_registers(s.ticked(r), s),
{
    lemma_next_is(s, Instruction::LoadImm { x, nn });
}

/// `4XNN` skips the next instruction exactly when `VX != NN`, changing
/// nothing else.
pub proof fn law_skip_if_not_equal_immediate(s: MachineState, x: u8, nn: u8, r: u8)
    requires
        s.wf(),
        s.pc + 1 < RAM_SIZE,
        x < 16,
        s.fetch() == 0x4000 + x * 0x100 + nn,
    ensures
        s.ticked(r).pc == if s.v[x as int] != nn { s.pc + 4 } else { s.pc + 2 },
        s.ticked(r).v == s.v,
        same_outside_registers(s.ticked(r), s),
{
    lemma_next_is(s, Instruction::SkipIfNotEqualImm { x, nn });
}

/// `FX65` loads `V0..=VX` from memory at `I..=I+X`: register `k` gets the
/// byte at `I + k` for every `k <= X`, `VX` included; registers above `X`
/// and everything else but the program counter are kept.
pub proof fn law_load_registers(s: MachineState, x: u8, r: u8)
    requires
        s.wf(),
        s.pc + 1 < RAM_SIZE,
        x < 16,
        s.i + x < RAM_SIZE,
        s.fetch() == 0xF065 + x * 0x100,
    ensures
        forall|k: int| 0 <= k <= x ==> #[trigger] s.ticked(r).v[k] == s.ram[s.i + k],
        forall|k: int| x < k < 16 ==> #[trigger] s.ticked(r).v[k] == s.v[k],
        s.ticked(r).pc == s.pc + 2,
        same_outside_registers(s.ticked(r), s),
{
    lemma_next_is(s, Instruction::LoadRegs { x });
}

/// `EXA1` skips the next instruction exactly when key `VX` is up.
pub proof fn law_skip_if_key_up(s: MachineState, x: u8, r: u8)
    requires
        s.wf(),
        s.pc + 1 < RAM_SIZE,
        x < 16,
        s.v[x as int] < NUM_KEYS,
        s.fetch() == 0xE0A1 + x * 0x100,
    ensures
        s.ticked(r).pc == if !s.keys[s.v[x as int] as int] { s.pc + 4 } else { s.pc + 2 },
        s.ticked(r).v == s.v,
        same_outside_registers(s.ticked(r), s),
{
    lemma_next_is(s, Instruction::SkipIfNotKey { x });
}


/// `00E0` turns every pixel off and changes nothing else.
pub proof fn law_clear_screen(s: MachineState, r: u8)
    requires
        s.wf(),
        s.pc + 1 < RAM_SIZE,
        s.fetch() == 0x00E0,
    ensures
        forall|k: int| 0 <= k < DISPLAY_SIZE ==> !#[trigger] s.ticked(r).display[k],
        s.ticked(r).display.len() == DISPLAY_SIZE,
        s.ticked(r).pc == s.pc + 2,
        s.ticked(r).v == s.v,
        s.ticked(r).ram == s.ram,
        s.ticked(r).i == s.i,
        s.ticked(r).stack == s.stack,
        s.ticked(r).sp == s.sp,
        s.ticked(r).keys == s.keys,
        s.ticked(r).delay_timer == s.delay_timer,
        s.ticked(r).sound_timer == s.sound_timer,
{
    lemma_next_is(s, Instruction::ClearScreen);
}

/// `00EE` pops the return address: execution continues at the address on
/// top of the stack, one level down.
pub proof fn law_return(s: MachineState, r: u8)
    requires
        s.wf(),
        s.pc + 1 < RAM_SIZE,
        1 <= s.sp <= STACK_SIZE,
        s.fetch() == 0x00EE,
    ensures
        s.ticked(r).pc == s.stack[s.sp - 1],
        s.ticked(r).sp == s.sp - 1,
        s.ticked(r).v == s.v,
        s.ticked(r).ram == s.ram,
        s.ticked(r).i == s.i,
        s.ticked(r).stack == s.stack,
        s.ticked(r).display == s.display,
        s.ticked(r).keys == s.keys,
        s.ticked(r).delay_timer == s.delay_timer,
        s.ticked(r).sound_timer == s.sound_timer,
{
    lemma_next_is(s, Instruction::Return);
}

/// `1NNN` continues at `NNN`, changing nothing else.
pub proof fn law_jump(s: MachineState, addr: u16, r: u8)
    requires
        s.wf(),
        s.pc + 1 < RAM_SIZE,
        addr < 0x1000,
        s.fetch() == 0x1000 + addr,
    ensures
        s.ticked(r).pc == addr,
        s.ticked(r).v == s.v,
        same_outside_registers(s.ticked(r), s),
{
    lemma_next_is(s, Instruction::Jump { addr });
}

/// `2NNN` pushes the address of the next instruction and continues at `NNN`.
pub proof fn law_call(s: MachineState, addr: u16, r: u8)
    requires
        s.wf(),
        s.pc + 1 < RAM_SIZE,
        addr < 0x1000,
        s.sp < STACK_SIZE,
        s.fetch() == 0x2000 + addr,
    ensures
        s.ticked(r).pc == addr,
        s.ticked(r).sp == s.sp + 1,
        s.ticked(r).stack[s.sp as int] == s.pc + 2,
        forall|k: int| 0 <= k < STACK_SIZE && k != s.sp ==> #[trigger] s.ticked(r).stack[k]
            == s.stack[k],
        s.ticked(r).stack.len() == STACK_SIZE,
        s.ticked(r).v == s.v,
        s.ticked(r).ram == s.ram,
        s.ticked(r).i == s.i,
        s.ticked(r).display == s.display,
        s.ticked(r).keys == s.keys,
        s.ticked(r).delay_timer == s.delay_timer,
        s.ticked(r).sound_timer == s.sound_timer,
{
    lemma_next_is(s, Instruction::Call { addr });
}

/// `3XNN` skips the next instruction exactly when `VX == NN`.
pub proof fn law_skip_if_equal_immediate(s: MachineState, x: u8, nn: u8, r: u8)
    requires
        s.wf(),
        s.pc + 1 < RAM_SIZE,
        x < 16,
        s.fetch() == 0x3000 + x * 0x100 + nn,
    ensures
        s.ticked(r).pc == if s.v[x as int] == nn { s.pc + 4 } else { s.pc + 2 },
        s.ticked(r).v == s.v,
        same_outside_registers(s.ticked(r), s),
{
    lemma_next_is(s, Instruction::SkipIfEqualImm { x, nn });
}

/// `5XY0` skips the next instruction exactly when `VX == VY`.
pub proof fn law_skip_if_equal_registers(s: MachineState, x: u8, y: u8, r: u8)
    requires
        s.wf(),
        s.pc + 1 < RAM_SIZE,
        x < 16,
        y < 16,
        s.fetch() == 0x5000 + x * 0x100 + y * 0x10,
    ensures
        s.ticked(r).pc == if s.v[x as int] == s.v[y as int] { s.pc + 4 } else { s.pc + 2 },
        s.ticked(r).v == s.v,
        same_outside_registers(s.ticked(r), s),
{
    lemma_next_is(s, Instruction::SkipIfEqualReg { x, y });
}

/// `9XY0` skips the next instruction exactly when `VX != VY`.
pub proof fn law_skip_if_not_equal_registers(s: MachineState, x: u8, y: u8, r: u8)
    requires
        s.wf(),
        s.pc + 1 < RAM_SIZE,
        x < 16,
        y < 16,
        s.fetch() == 0x9000 + x * 0x100 + y * 0x10,
    ensures
        s.ticked(r).pc == if s.v[x as int] != s.v[y as int] { s.pc + 4 } else { s.pc + 2 },
        s.ticked(r).v == s.v,
        same_outside_registers(s.ticked(r), s),
{
    lemma_next_is(s, Instruction::SkipIfNotEqualReg { x, y });
}

/// `7XNN` adds `NN` to `VX` modulo 256 and leaves `VF` alone.
pub proof fn law_add_immediate(s: MachineState, x: u8, nn: u8, r: u8)
    requires
        s.wf(),
        s.pc + 1 < RAM_SIZE,
        x < 16,
        s.fetch() == 0x7000 + x * 0x100 + nn,
    ensures
        s.ticked(r).v[x as int] == (s.v[x as int] + nn) % 256,
        other_registers_kept(s.ticked(r), s, x as int, false),
        s.ticked(r).pc == s.pc + 2,
        same_outside_registers(s.ticked(r), s),
{
    lemma_next_is(s, Instruction::AddImm { x, nn });
}

/// `8XY0`..`8XY3`: `VX` becomes `VY`, `VX | VY`, `VX & VY`, `VX ^ VY`;
/// no other register changes.
pub proof fn law_register_logic(s: MachineState, x: u8, y: u8, d: u16, r: u8)
    requires
        s.wf(),
        s.pc + 1 < RAM_SIZE,
        x < 16,
        y < 16,
        d < 4,
        s.fetch() == 0x8000 + x * 0x100 + y * 0x10 + d,
    ensures
        s.ticked(r).v[x as int] == if d == 0 {
            s.v[y as int]
        } else if d == 1 {
            s.v[x as int] | s.v[y as int]
        } else if d == 2 {
            s.v[x as int] & s.v[y as int]
        } else {
            s.v[x as int] ^ s.v[y as int]
        },
        other_registers_kept(s.ticked(r), s, x as int, false),
        s.ticked(r).pc == s.pc + 2,
        same_outside_registers(s.ticked(r), s),
{
    if d == 0 {
        lemma_next_is(s, Instruction::Move { x, y });
    } else if d == 1 {
        lemma_next_is(s, Instruction::Or { x, y });
    } else if d == 2 {
        lemma_next_is(s, Instruction::And { x, y });
    } else {
        lemma_next_is(s, Instruction::Xor { x, y });
    }
}

/// `8XY4`: `VF` is the carry of `VX + VY`; `VX` (unless it is `VF`) is the
/// sum modulo 256.
pub proof fn law_add_registers(s: MachineState, x: u8, y: u8, r: u8)
    requires
        s.wf(),
        s.pc + 1 < RAM_SIZE,
        x < 16,
        y < 16,
        s.fetch() == 0x8004 + x * 0x100 + y * 0x10,
    ensures
        s.ticked(r).v[0xF] == if s.v[x as int] + s.v[y as int] > 255 { 1int } else { 0int },
        x != 0xF ==> s.ticked(r).v[x as int] == (s.v[x as int] + s.v[y as int]) % 256,
        other_registers_kept(s.ticked(r), s, x as int, true),
        s.ticked(r).pc == s.pc + 2,
        same_outside_registers(s.ticked(r), s),
{
    lemma_next_is(s, Instruction::AddReg { x, y });
}

/// `8XY5`: `VF` is 1 when `VX >= VY` (no borrow), else 0; `VX` (unless it
/// is `VF`) is `VX - VY` modulo 256.
pub proof fn law_subtract_registers(s: MachineState, x: u8, y: u8, r: u8)
    requires
        s.wf(),
        s.pc + 1 < RAM_SIZE,
        x < 16,
        y < 16,
        s.fetch() == 0x8005 + x * 0x100 + y * 0x10,
    ensures
        s.ticked(r).v[0xF] == if s.v[x as int] >= s.v[y as int] { 1int } else { 0int },
        x != 0xF ==> s.ticked(r).v[x as int] == (s.v[x as int] + 256 - s.v[y as int]) % 256,
        other_registers_kept(s.ticked(r), s, x as int, true),
        s.ticked(r).pc == s.pc + 2,
        same_outside_registers(s.ticked(r), s),
{
    lemma_next_is(s, Instruction::SubReg { x, y });
}

/// `8XY7`: `VF` is 1 when `VY >= VX` (no borrow), else 0; `VX` (unless it
/// is `VF`) is `VY - VX` modulo 256.
pub proof fn law_reverse_subtract_registers(s: MachineState, x: u8, y: u8, r: u8)
    requires
        s.wf(),
        s.pc + 1 < RAM_SIZE,
        x < 16,
        y < 16,
        s.fetch() == 0x8007 + x * 0x100 + y * 0x10,
    ensures
        s.ticked(r).v[0xF] == if s.v[y as int] >= s.v[x as int] { 1int } else { 0int },
        x != 0xF ==> s.ticked(r).v[x as int] == (s.v[y as int] + 256 - s.v[x as int]) % 256,
        other_registers_kept(s.ticked(r), s, x as int, true),
        s.ticked(r).pc == s.pc + 2,
        same_outside_registers(s.ticked(r), s),
{
    lemma_next_is(s, Instruction::SubReverse { x, y });
}

/// `8XY6`: `VF` is the lowest bit of `VX`; `VX` (unless it is `VF`) is
/// halved, rounding down. `VY` plays no part.
pub proof fn law_shift_right(s: MachineState, x: u8, y: u8, r: u8)
    requires
        s.wf(),
        s.pc + 1 < RAM_SIZE,
        x < 16,
        y < 16,
        s.fetch() == 0x8006 + x * 0x100 + y * 0x10,
    ensures
        s.ticked(r).v[0xF] == s.v[x as int] % 2,
        x != 0xF ==> s.ticked(r).v[x as int] == s.v[x as int] / 2,
        other_registers_kept(s.ticked(r), s, x as int, true),
        s.ticked(r).pc == s.pc + 2,
        same_outside_registers(s.ticked(r), s),
{
    lemma_next_is(s, Instruction::ShiftRight { x, y });
}

/// `8XYE`: `VF` is the highest bit of `VX`; `VX` (unless it is `VF`) is
/// doubled modulo 256. `VY` plays no part.
pub proof fn law_shift_left(s: MachineState, x: u8, y: u8, r: u8)
    requires
        s.wf(),
        s.pc + 1 < RAM_SIZE,
        x < 16,
        y < 16,
        s.fetch() == 0x800E + x * 0x100 + y * 0x10,
    ensures
        s.ticked(r).v[0xF] == if s.v[x as int] >= 128 { 1int } else { 0int },
        x != 0xF ==> s.ticked(r).v[x as int] == (2 * s.v[x as int]) % 256,
        other_registers_kept(s.ticked(r), s, x as int, true),
        s.ticked(r).pc == s.pc + 2,
        same_outside_registers(s.ticked(r), s),
{
    lemma_next_is(s, Instruction::ShiftLeft { x, y });
}

/// `ANNN` sets `I` to `NNN`.
pub proof fn law_load_index(s: MachineState, addr: u16, r: u8)
    requires
        s.wf(),
        s.pc + 1 < RAM_SIZE,
        addr < 0x1000,
        s.fetch() == 0xA000 + addr,
    ensures
        s.ticked(r).i == addr,
        s.ticked(r).pc == s.pc + 2,
        s.ticked(r).v == s.v,
        s.ticked(r).ram == s.ram,
        s.ticked(r).stack == s.stack,
        s.ticked(r).sp == s.sp,
        s.ticked(r).display == s.display,
        s.ticked(r).keys == s.keys,
        s.ticked(r).delay_timer == s.delay_timer,
        s.ticked(r).sound_timer == s.sound_timer,
{
    lemma_next_is(s, Instruction::LoadIndex { addr });
}

/// `BNNN` continues at `NNN + V0`.
pub proof fn law_jump_offset(s: MachineState, addr: u16, r: u8)
    requires
        s.wf(),
        s.pc + 1 < RAM_SIZE,
        addr < 0x1000,
        s.fetch() == 0xB000 + addr,
    ensures
        s.ticked(r).pc == addr + s.v[0],
        s.ticked(r).v == s.v,
        same_outside_registers(s.ticked(r), s),
{
    lemma_next_is(s, Instruction::JumpOffset { addr });
}

/// `CXNN` sets `VX` to the random byte AND `NN`: no bit outside `NN` is set.
pub proof fn law_random(s: MachineState, x: u8, nn: u8, r: u8)
    requires
        s.wf(),
        s.pc + 1 < RAM_SIZE,
        x < 16,
        s.fetch() == 0xC000 + x * 0x100 + nn,
    ensures
        s.ticked(r).v[x as int] == r & nn,
        s.ticked(r).v[x as int] & !nn == 0,
        other_registers_kept(s.ticked(r), s, x as int, false),
        s.ticked(r).pc == s.pc + 2,
        same_outside_registers(s.ticked(r), s),
{
    lemma_next_is(s, Instruction::Random { x, nn });
    assert((r & nn) & !nn == 0) by (bit_vector);
}

/// `EX9E` skips the next instruction exactly when key `VX` is down.
pub proof fn law_skip_if_key_down(s: MachineState, x: u8, r: u8)
    requires
        s.wf(),
        s.pc + 1 < RAM_SIZE,
        x < 16,
        s.v[x as int] < NUM_KEYS,
        s.fetch() == 0xE09E + x * 0x100,
    ensures
        s.ticked(r).pc == if s.keys[s.v[x as int] as int] { s.pc + 4 } else { s.pc + 2 },
        s.ticked(r).v == s.v,
        same_outside_registers(s.ticked(r), s),
{
    lemma_next_is(s, Instruction::SkipIfKey { x });
}

/// `FX07` copies the delay timer into `VX`.
pub proof fn law_load_delay(s: MachineState, x: u8, r: u8)
    requires
        s.wf(),
        s.pc + 1 < RAM_SIZE,
        x < 16,
        s.fetch() == 0xF007 + x * 0x100,
    ensures
        s.ticked(r).v[x as int] == s.delay_timer,
        other_registers_kept(s.ticked(r), s, x as int, false),
        s.ticked(r).pc == s.pc + 2,
        same_outside_registers(s.ticked(r), s),
{
    lemma_next_is(s, Instruction::LoadDelay { x });
}

/// `FX15` and `FX18` set the delay or the sound timer to `VX`, and nothing
/// else.
pub proof fn law_set_timers(s: MachineState, x: u8, sound: bool, r: u8)
    requires
        s.wf(),
        s.pc + 1 < RAM_SIZE,
        x < 16,
        s.fetch() == (if sound { 0xF018int } else { 0xF015int }) + x * 0x100,
    ensures
        s.ticked(r).delay_timer == if sound { s.delay_timer } else { s.v[x as int] },
        s.ticked(r).sound_timer == if sound { s.v[x as int] } else { s.sound_timer },
        s.ticked(r).pc == s.pc + 2,
        s.ticked(r).v == s.v,
        s.ticked(r).ram == s.ram,
        s.ticked(r).i == s.i,
        s.ticked(r).stack == s.stack,
        s.ticked(r).sp == s.sp,
        s.ticked(r).display == s.display,
        s.ticked(r).keys == s.keys,
{
    if sound {
        lemma_next_is(s, Instruction::SetSound { x });
    } else {
        lemma_next_is(s, Instruction::SetDelay { x });
    }
}

/// `FX0A`: with some key down, `VX` gets the lowest key that is down and
/// execution moves on; with none down, the machine is left exactly as it was.
pub proof fn law_wait_key(s: MachineState, x: u8, r: u8)
    requires
        s.wf(),
        s.pc + 1 < RAM_SIZE,
        x < 16,
        s.fetch() == 0xF00A + x * 0x100,
    ensures
        (exists|k: int| 0 <= k < NUM_KEYS && #[trigger] s.keys[k]) ==> {
            &&& s.ticked(r).v[x as int] < NUM_KEYS
            &&& s.keys[s.ticked(r).v[x as int] as int]
            &&& forall|j: int| 0 <= j < s.ticked(r).v[x as int] ==> !#[trigger] s.keys[j]
            &&& other_registers_kept(s.ticked(r), s, x as int, false)
            &&& s.ticked(r).pc == s.pc + 2
            &&& same_outside_registers(s.ticked(r), s)
        },
        !(exists|k: int| 0 <= k < NUM_KEYS && #[trigger] s.keys[k]) ==> s.ticked(r) == s,
{
    lemma_next_is(s, Instruction::WaitKey { x });
    let a = s.advanced();
    if exists|k: int| 0 <= k < NUM_KEYS && #[trigger] s.keys[k] {
        let k0 = choose|k: int| 0 <= k < NUM_KEYS && #[trigger] s.keys[k];
        lemma_lowest_exists(s.keys, k0);
    } else {
        assert(!exists|k: int| is_lowest_pressed(a.keys, k));
        assert(s.ticked(r) =~= s);
    }
}

/// Where some key is down, a lowest one is.
proof fn lemma_lowest_exists(keys: Seq<bool>, k0: int)
    requires
        0 <= k0 < NUM_KEYS,
        keys[k0],
    ensures
        exists|k: int| is_lowest_pressed(keys, k),
    decreases k0,
{
    if exists|j: int| 0 <= j < k0 && #[trigger] keys[j] {
        let j = choose|j: int| 0 <= j < k0 && #[trigger] keys[j];
        lemma_lowest_exists(keys, j);
    } else {
        assert(is_lowest_pressed(keys, k0));
    }
}

/// `FX1E` adds `VX` to `I`, modulo 2^16, and leaves `VF` alone.
pub proof fn law_add_index(s: MachineState, x: u8, r: u8)
    requires
        s.wf(),
        s.pc + 1 < RAM_SIZE,
        x < 16,
        s.fetch() == 0xF01E + x * 0x100,
    ensures
        s.ticked(r).i == (s.i + s.v[x as int]) % 0x10000,
        s.ticked(r).pc == s.pc + 2,
        s.ticked(r).v == s.v,
        s.ticked(r).ram == s.ram,
        s.ticked(r).stack == s.stack,
        s.ticked(r).sp == s.sp,
        s.ticked(r).display == s.display,
        s.ticked(r).keys == s.keys,
        s.ticked(r).delay_timer == s.delay_timer,
        s.ticked(r).sound_timer == s.sound_timer,
{
    lemma_next_is(s, Instruction::AddIndex { x });
}

/// `FX29` points `I` at the five-byte font glyph of the digit `VX`.
pub proof fn law_font_char(s: MachineState, x: u8, r: u8)
    requires
        s.wf(),
        s.pc + 1 < RAM_SIZE,
        x < 16,
        s.fetch() == 0xF029 + x * 0x100,
    ensures
        s.ticked(r).i == FONT_START + 5 * s.v[x as int],
        s.ticked(r).pc == s.pc + 2,
        s.ticked(r).v == s.v,
        s.ticked(r).ram == s.ram,
        s.ticked(r).stack == s.stack,
        s.ticked(r).sp == s.sp,
        s.ticked(r).display == s.display,
        s.ticked(r).keys == s.keys,
        s.ticked(r).delay_timer == s.delay_timer,
        s.ticked(r).sound_timer == s.sound_timer,
{
    lemma_next_is(s, Instruction::FontChar { x });
}

/// `FX33` writes the decimal digits of `VX` at `I`, `I+1`, `I+2`, hundreds
/// first, and no other byte of memory.
pub proof fn law_store_bcd(s: MachineState, x: u8, r: u8)
    requires
        s.wf(),
        s.pc + 1 < RAM_SIZE,
        x < 16,
        s.i + 2 < RAM_SIZE,
        s.fetch() == 0xF033 + x * 0x100,
    ensures
        s.ticked(r).ram[s.i as int] < 10,
        s.ticked(r).ram[s.i + 1] < 10,
        s.ticked(r).ram[s.i + 2] < 10,
        100 * s.ticked(r).ram[s.i as int] + 10 * s.ticked(r).ram[s.i + 1] + s.ticked(r).ram[s.i
            + 2] == s.v[x as int],
        forall|a: int|
            0 <= a < RAM_SIZE && !(s.i <= a <= s.i + 2) ==> #[trigger] s.ticked(r).ram[a]
                == s.ram[a],
        s.ticked(r).ram.len() == RAM_SIZE,
        s.ticked(r).pc == s.pc + 2,
        s.ticked(r).v == s.v,
        s.ticked(r).i == s.i,
{
    lemma_next_is(s, Instruction::StoreBcd { x });
}

/// `FX55` stores `V0..=VX` at `I..=I+X`, `VX` included, and no other byte
/// of memory; registers and `I` are kept.
pub proof fn law_store_registers(s: MachineState, x: u8, r: u8)
    requires
        s.wf(),
        s.pc + 1 < RAM_SIZE,
        x < 16,
        s.i + x < RAM_SIZE,
        s.fetch() == 0xF055 + x * 0x100,
    ensures
        forall|k: int| 0 <= k <= x ==> #[trigger] s.ticked(r).ram[s.i + k] == s.v[k],
        forall|a: int|
            0 <= a < RAM_SIZE && !(s.i <= a <= s.i + x) ==> #[trigger] s.ticked(r).ram[a]
                == s.ram[a],
        s.ticked(r).ram.len() == RAM_SIZE,
        s.ticked(r).pc == s.pc + 2,
        s.ticked(r).v == s.v,
        s.ticked(r).i == s.i,
        s.ticked(r).display == s.display,
{
    lemma_next_is(s, Instruction::StoreRegs { x });
}


/// The display pixel that row `row`, column `col` of a sprite drawn by
/// `DXYN` lands on: the sprite starts at (`VX` mod 64, `VY` mod 32).
pub open spec fn sprite_cell_index(s: MachineState, x: u8, y: u8, row: int, col: int) -> int {
    ((s.v[y as int] % 32) as int + row) * 64 + (s.v[x as int] % 64) as int + col
}

/// `DXYN` XORs the `N`-row sprite at `I` onto the display at (`VX` mod 64,
/// `VY` mod 32), row `r` from the byte at `I + r`, its leftmost pixel in the
/// high bit; cells past the right or bottom edge are dropped, every other
/// pixel is kept, and `VF` becomes 1 exactly when some lit pixel went dark.
pub proof fn law_draw(s: MachineState, x: u8, y: u8, n: u8, r: u8)
    requires
        s.wf(),
        s.pc + 1 < RAM_SIZE,
        x < 16,
        y < 16,
        n < 16,
        n == 0 || s.i + n <= RAM_SIZE,
        s.fetch() == 0xD000 + x * 0x100 + y * 0x10 + n,
    ensures
        forall|row: int, col: int|
            0 <= row < n && 0 <= col < 8 && (s.v[x as int] % 64) + col < 64 && (s.v[y as int]
                % 32) + row < 32 ==> s.ticked(r).display[#[trigger] sprite_cell_index(
                s,
                x,
                y,
                row,
                col,
            )] == (s.display[sprite_cell_index(s, x, y, row, col)] != (s.ram[s.i + row] & (
            0x80u8 >> (col as u8)) != 0)),
        forall|k: int|
            0 <= k < DISPLAY_SIZE && !((s.v[x as int] % 64) <= k % 64 < (s.v[x as int] % 64) + 8
                && (s.v[y as int] % 32) <= k / 64 < (s.v[y as int] % 32) + n) ==> #[trigger] s.ticked(
                r,
            ).display[k] == s.display[k],
        s.ticked(r).v[0xF] == if exists|k: int|
            0 <= k < DISPLAY_SIZE && #[trigger] s.display[k] && !s.ticked(r).display[k] {
            1int
        } else {
            0int
        },
        s.ticked(r).display.len() == DISPLAY_SIZE,
        other_registers_kept(s.ticked(r), s, 0xF, false),
        s.ticked(r).pc == s.pc + 2,
        s.ticked(r).ram == s.ram,
        s.ticked(r).i == s.i,
        s.ticked(r).stack == s.stack,
        s.ticked(r).sp == s.sp,
        s.ticked(r).keys == s.keys,
        s.ticked(r).delay_timer == s.delay_timer,
        s.ticked(r).sound_timer == s.sound_timer,
{
    lemma_next_is(s, Instruction::Draw { x, y, n });
    let a = s.advanced();
    let t = s.ticked(r);
    assert(t == a.draw(x, y, n));
    assert forall|row: int, col: int|
        0 <= row < n && 0 <= col < 8 && (s.v[x as int] % 64) + col < 64 && (s.v[y as int] % 32)
            + row < 32 implies t.display[#[trigger] sprite_cell_index(s, x, y, row, col)] == (
    s.display[sprite_cell_index(s, x, y, row, col)] != (s.ram[s.i + row] & (0x80u8 >> (
    col as u8)) != 0)) by {
        lemma_draw_target(a, x, y, n, row, col);
        lemma_sprite_mask(s.ram[s.i + row], col as u8);
    }
    assert((exists|k: int| 0 <= k < DISPLAY_SIZE && #[trigger] s.display[k] && !t.display[k])
        == a.draw_collides(x, y, n)) by {
        if a.draw_collides(x, y, n) {
            let k = choose|k: int|
                0 <= k < DISPLAY_SIZE && #[trigger] a.draw_hits_index(x, y, n, k) && a.display[k];
            assert(s.display[k] && !t.display[k]);
        }
        if exists|k: int| 0 <= k < DISPLAY_SIZE && #[trigger] s.display[k] && !t.display[k] {
            let k = choose|k: int|
                0 <= k < DISPLAY_SIZE && #[trigger] s.display[k] && !t.display[k];
            assert(a.draw_hits_index(x, y, n, k));
        }
    }
}


/// A cycle reads its opcode high byte first: the byte at the program
/// counter, then the one after it.
pub proof fn law_fetch_high_byte_first(s: MachineState)
    requires
        s.wf(),
        s.pc + 1 < RAM_SIZE,
    ensures
        s.fetch() / 256 == s.ram[s.pc as int],
        s.fetch() % 256 == s.ram[s.pc + 1],
{
}

/// A machine just switched on: execution at 0x200, `I`, the stack pointer,
/// the registers, the stack, the timers all zero, every pixel off, every
/// key up, and memory zero but for the font at 0x050..0x0A0.
pub proof fn law_power_on()
    ensures
        MachineState::power_on().wf(),
        MachineState::power_on().pc == 0x200,
        MachineState::power_on().i == 0,
        MachineState::power_on().sp == 0,
        MachineState::power_on().delay_timer == 0,
        MachineState::power_on().sound_timer == 0,
        forall|k: int| 0 <= k < 16 ==> #[trigger] MachineState::power_on().v[k] == 0,
        forall|k: int| 0 <= k < STACK_SIZE ==> #[trigger] MachineState::power_on().stack[k] == 0,
        forall|k: int| 0 <= k < DISPLAY_SIZE ==> !#[trigger] MachineState::power_on().display[k],
        forall|k: int| 0 <= k < NUM_KEYS ==> !#[trigger] MachineState::power_on().keys[k],
        forall|a: int|
            0 <= a < FONTSET_SIZE ==> #[trigger] MachineState::power_on().ram[FONT_START + a]
                == FONTSET@[a],
        forall|a: int|
            0 <= a < RAM_SIZE && !(FONT_START <= a < FONT_START + FONTSET_SIZE) ==> #[trigger] MachineState::power_on().ram[a] == 0,
{
}

/// Loading a ROM puts byte `k` of it at `0x200 + k` and changes no other
/// byte of memory, and nothing else of the machine.
pub proof fn law_load_rom(s: MachineState, rom: Seq<u8>)
    requires
        s.wf(),
        rom.len() <= RAM_SIZE - PROGRAM_START,
    ensures
        forall|k: int| 0 <= k < rom.len() ==> #[trigger] s.with_rom(rom).ram[PROGRAM_START + k]
            == rom[k],
        forall|a: int|
            0 <= a < RAM_SIZE && !(PROGRAM_START <= a < PROGRAM_START + rom.len()) ==> #[trigger] s.with_rom(rom).ram[a] == s.ram[a],
        s.with_rom(rom).ram.len() == RAM_SIZE,
        s.with_rom(rom).pc == s.pc,
        s.with_rom(rom).v == s.v,
        same_outside_registers(
            MachineState { ram: s.ram, ..s.with_rom(rom) },
            s,
        ),
{
}

} // verus!

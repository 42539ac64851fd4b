//! Properties of the machine that span instructions, cycles or calls.

use vstd::prelude::*;
use crate::constants::{CYCLES_PER_FRAME, FONTSET, FONTSET_SIZE, FONT_START, NUM_KEYS, RAM_SIZE};
use crate::instruction::{op_c, Instruction};
use crate::machine::MachineState;

verus! {

/// The random byte matters to a cycle only when the instruction is `CXNN`,
/// and there only as `VX = byte AND NN`.
pub proof fn lemma_tick_random_only_for_cxnn(s: MachineState, r1: u8, r2: u8)
    requires
        s.wf(),
        s.can_tick(),
    ensures
        op_c(s.fetch()) != 0xC ==> s.ticked(r1) == s.ticked(r2),
        s.next_instruction() matches Instruction::Random { x, nn } ==> s.ticked(r1) == s.ticked(
            r2,
        ).set_v(x as int, r1 & nn),
{
    if let Instruction::Random { x, nn } = s.next_instruction() {
        assert(s.ticked(r1).v =~= s.ticked(r2).set_v(x as int, r1 & nn).v);
    }
}

/// Every cycle keeps each memory at its size.
pub proof fn lemma_tick_preserves_wf(s: MachineState, r: u8)
    requires
        s.wf(),
        s.can_tick(),
    ensures
        s.ticked(r).wf(),
{
}

/// No cycle touches the keypad.
pub proof fn lemma_tick_keeps_keys(s: MachineState, r: u8)
    requires
        s.wf(),
        s.can_tick(),
    ensures
        s.ticked(r).keys == s.keys,
{
}

/// Only `FX15` and `FX18` change the timers: every other cycle leaves them
/// alone, so between timer steps they only move when a program sets them.
pub proof fn lemma_tick_keeps_timers(s: MachineState, r: u8)
    requires
        s.wf(),
        s.can_tick(),
        !(s.next_instruction() is SetDelay),
        !(s.next_instruction() is SetSound),
    ensures
        s.ticked(r).delay_timer == s.delay_timer,
        s.ticked(r).sound_timer == s.sound_timer,
{
}

/// A run of cycles keeps each memory at its size and the keypad as it was.
pub proof fn lemma_run_cycles_keeps_keys(s: MachineState, rs: Seq<u8>, n: nat)
    requires
        s.wf(),
    ensures
        s.run_cycles(rs, n).0.wf(),
        s.run_cycles(rs, n).0.keys == s.keys,
    decreases n,
{
    if n > 0 {
        lemma_run_cycles_keeps_keys(s, rs, (n - 1) as nat);
        let prev = s.run_cycles(rs, (n - 1) as nat);
        if prev.1 is None && prev.0.tick_fault() is None {
            lemma_tick_preserves_wf(prev.0, rs[n - 1]);
            lemma_tick_keeps_keys(prev.0, rs[n - 1]);
        }
    }
}

/// Every cycle of a frame sees the keypad that the frame was given, and the
/// frame ends with it.
pub proof fn lemma_frame_keeps_keys(s: MachineState, keys: Seq<bool>, rs: Seq<u8>)
    requires
        s.wf(),
        keys.len() == NUM_KEYS,
    ensures
        s.frame(keys, rs).0.keys == keys,
        s.frame(keys, rs).0.wf(),
{
    lemma_run_cycles_keeps_keys(s.with_keys(keys), rs, CYCLES_PER_FRAME as nat);
}

/// A frame that runs all its cycles ends with exactly one timer step: the
/// timers are one lower (not below zero) than the cycles left them, and the
/// beep sounds exactly when the sound timer ran out in that step.
pub proof fn lemma_frame_steps_timers_once(s: MachineState, keys: Seq<bool>, rs: Seq<u8>)
    requires
        s.frame(keys, rs).1 is Ok,
    ensures
        ({
            let ran = s.with_keys(keys).run_cycles(rs, CYCLES_PER_FRAME as nat).0;
            let out = s.frame(keys, rs);
            &&& out.0 == ran.timers_ticked()
            &&& out.1 == Ok::<bool, crate::machine::TickFault>(ran.sound_timer == 1)
        }),
{
}

/// The state after `n` cycles, cycle `k` drawing `rs[k]`.
pub open spec fn cycles_after(s: MachineState, rs: Seq<u8>, n: nat) -> MachineState
    decreases n,
{
    if n == 0 {
        s
    } else {
        cycles_after(s, rs, (n - 1) as nat).ticked(rs[n - 1])
    }
}

/// Runs of cycles that meet no fault are plain repetitions of the cycle.
pub proof fn lemma_run_cycles_without_fault(s: MachineState, rs: Seq<u8>, n: nat)
    requires
        forall|k: nat| k < n ==> (#[trigger] cycles_after(s, rs, k)).can_tick(),
    ensures
        s.run_cycles(rs, n) == (cycles_after(s, rs, n), None::<crate::machine::TickFault>),
    decreases n,
{
    if n > 0 {
        lemma_run_cycles_without_fault(s, rs, (n - 1) as nat);
        assert(cycles_after(s, rs, (n - 1) as nat).can_tick());
    }
}

/// A frame in which no cycle meets a fault is ten cycles, with the keypad
/// set first, and then one timer step whose beep it reports.
pub proof fn lemma_frame_is_ten_cycles_then_timers(s: MachineState, keys: Seq<bool>, rs: Seq<u8>)
    requires
        forall|k: nat| k < 10 ==> (#[trigger] cycles_after(s.with_keys(keys), rs, k)).can_tick(),
    ensures
        s.frame(keys, rs) == (
            cycles_after(s.with_keys(keys), rs, 10).timers_ticked(),
            Ok::<bool, crate::machine::TickFault>(
                cycles_after(s.with_keys(keys), rs, 10).sound_timer == 1,
            ),
        ),
{
    lemma_run_cycles_without_fault(s.with_keys(keys), rs, 10);
}

/// Drawing the same sprite twice at the same place restores the display
/// (XOR drawing), when neither coordinate register is `VF`.
pub proof fn lemma_draw_twice_restores_display(s: MachineState, x: u8, y: u8, n: u8)
    requires
        s.wf(),
        x < 15,
        y < 15,
    ensures
        s.draw(x, y, n).draw(x, y, n).display == s.display,
        s.draw(x, y, n).draw(x, y, n).ram == s.ram,
{
    let t = s.draw(x, y, n);
    assert forall|k: int| 0 <= k < s.display.len() implies t.draw_hits_index(x, y, n, k)
        == s.draw_hits_index(x, y, n, k) by {
        assert(t.v[x as int] == s.v[x as int]);
        assert(t.v[y as int] == s.v[y as int]);
    }
    assert(t.draw(x, y, n).display =~= s.display);
}

/// A sprite drawn on a blank display never collides: `VF` ends 0.
pub proof fn lemma_draw_on_blank_no_collision(s: MachineState, x: u8, y: u8, n: u8)
    requires
        s.wf(),
        forall|k: int| 0 <= k < s.display.len() ==> !#[trigger] s.display[k],
    ensures
        s.draw(x, y, n).v[0xF] == 0,
{
}

/// Storing registers `V0..=VX` and loading them back changes nothing: what
/// `FX65` reads is what `FX55` wrote.
pub proof fn lemma_store_then_load_restores_registers(s: MachineState, x: u8, r: u8)
    requires
        s.wf(),
        x < 16,
        s.i + x < RAM_SIZE,
    ensures
        s.execute(Instruction::StoreRegs { x }, r).execute(Instruction::LoadRegs { x }, r)
            == s.execute(Instruction::StoreRegs { x }, r),
        s.execute(Instruction::StoreRegs { x }, r).execute(Instruction::LoadRegs { x }, r).v
            == s.v,
{
    let t = s.execute(Instruction::StoreRegs { x }, r);
    assert(t.execute(Instruction::LoadRegs { x }, r).v =~= s.v);
}

/// `FX33` stores the three decimal digits of `VX`, hundreds first.
pub proof fn lemma_bcd_digits(s: MachineState, x: u8, r: u8)
    requires
        s.wf(),
        x < 16,
        s.i + 2 < RAM_SIZE,
    ensures
        ({
            let t = s.execute(Instruction::StoreBcd { x }, r);
            &&& t.ram[s.i as int] < 10
            &&& t.ram[s.i + 1] < 10
            &&& t.ram[s.i + 2] < 10
            &&& 100 * t.ram[s.i as int] + 10 * t.ram[s.i + 1] + t.ram[s.i + 2] == s.v[x as int]
        }),
{
}

/// `8XY4`: the carry and the stored byte together make the full sum.
pub proof fn lemma_add_carry(s: MachineState, x: u8, y: u8)
    requires
        s.wf(),
        x < 15,
        y < 16,
    ensures
        ({
            let t = s.execute(Instruction::AddReg { x, y }, 0);
            &&& t.v[0xF] <= 1
            &&& t.v[x as int] + 256 * t.v[0xF] == s.v[x as int] + s.v[y as int]
        }),
{
}

/// `8XY5` and `8XY7`: `VF` is 1 exactly when no borrow was taken, and the
/// stored byte is the difference, plus 256 after a borrow.
pub proof fn lemma_sub_borrow(s: MachineState, x: u8, y: u8)
    requires
        s.wf(),
        x < 15,
        y < 16,
    ensures
        ({
            let t = s.execute(Instruction::SubReg { x, y }, 0);
            &&& t.v[0xF] <= 1
            &&& t.v[x as int] == s.v[x as int] - s.v[y as int] + 256 * (1 - t.v[0xF])
        }),
        ({
            let t = s.execute(Instruction::SubReverse { x, y }, 0);
            &&& t.v[0xF] <= 1
            &&& t.v[x as int] == s.v[y as int] - s.v[x as int] + 256 * (1 - t.v[0xF])
        }),
{
}

/// `8XY6` and `8XYE`: the shifted byte and the bit in `VF` make up the
/// original value.
pub proof fn lemma_shift_keeps_bits(s: MachineState, x: u8, y: u8)
    requires
        s.wf(),
        x < 15,
        y < 16,
    ensures
        ({
            let t = s.execute(Instruction::ShiftRight { x, y }, 0);
            2 * t.v[x as int] + t.v[0xF] == s.v[x as int] && t.v[0xF] <= 1
        }),
        ({
            let t = s.execute(Instruction::ShiftLeft { x, y }, 0);
            t.v[x as int] + 256 * t.v[0xF] == 2 * s.v[x as int] && t.v[0xF] <= 1
        }),
{
}

/// A subroutine call followed by a return resumes at the instruction after
/// the call, with the stack pointer back where it was.
pub proof fn lemma_call_then_return_resumes(s: MachineState, addr: u16, r1: u8, r2: u8)
    requires
        s.wf(),
        s.can_tick(),
        s.next_instruction() == (Instruction::Call { addr }),
        s.ticked(r1).can_tick(),
        s.ticked(r1).next_instruction() == Instruction::Return,
    ensures
        s.ticked(r1).ticked(r2).pc == s.pc + 2,
        s.ticked(r1).ticked(r2).sp == s.sp,
        s.ticked(r1).ticked(r2).v == s.v,
        s.ticked(r1).ticked(r2).i == s.i,
{
}

/// `FX0A` with no key down stalls: the cycle leaves the machine as it was,
/// so the same instruction runs again on the next cycle.
pub proof fn lemma_wait_key_without_key_stalls(s: MachineState, x: u8, r: u8)
    requires
        s.wf(),
        s.can_tick(),
        s.next_instruction() == (Instruction::WaitKey { x }),
        forall|k: int| 0 <= k < NUM_KEYS ==> !#[trigger] s.keys[k],
    ensures
        s.ticked(r) == s,
{
    let a = s.advanced();
    assert(!exists|k: int| crate::machine::is_lowest_pressed(a.keys, k));
    assert(s.ticked(r) =~= s);
}

/// A machine just switched on holds the font at `FONT_START`.
pub proof fn lemma_power_on_holds_font()
    ensures
        MachineState::power_on().wf(),
        forall|a: int|
            0 <= a < FONTSET_SIZE ==> #[trigger] MachineState::power_on().ram[FONT_START + a]
                == FONTSET@[a],
{
}

/// `FX29` points `I` at the five-byte glyph of the hexadecimal digit in
/// `VX`, on every machine whose font is intact.
pub proof fn lemma_font_char_points_at_glyph(s: MachineState, x: u8, row: int)
    requires
        s.wf(),
        x < 16,
        s.v[x as int] < 16,
        forall|a: int| 0 <= a < FONTSET_SIZE ==> #[trigger] s.ram[FONT_START + a] == FONTSET@[a],
        0 <= row < 5,
    ensures
        ({
            let t = s.execute(Instruction::FontChar { x }, 0);
            t.ram[t.i + row] == FONTSET@[5 * s.v[x as int] + row]
        }),
{
    let t = s.execute(Instruction::FontChar { x }, 0);
    assert(t.i == FONT_START + 5 * s.v[x as int]);
    assert(s.ram[FONT_START + (5 * s.v[x as int] + row)] == FONTSET@[5 * s.v[x as int] + row]);
}

/// The state after `j` timer steps.
pub open spec fn timers_ticked_times(s: MachineState, j: nat) -> MachineState
    decreases j,
{
    if j == 0 {
        s
    } else {
        timers_ticked_times(s, (j - 1) as nat).timers_ticked()
    }
}

/// Timer steps count down: after `j` steps each timer is `j` lower, but
/// not below zero.
pub proof fn lemma_timers_count_down(s: MachineState, j: nat)
    ensures
        timers_ticked_times(s, j).delay_timer == if s.delay_timer >= j {
            s.delay_timer - j
        } else {
            0
        },
        timers_ticked_times(s, j).sound_timer == if s.sound_timer >= j {
            s.sound_timer - j
        } else {
            0
        },
    decreases j,
{
    if j > 0 {
        lemma_timers_count_down(s, (j - 1) as nat);
    }
}

/// A sound timer set to `k > 0` beeps exactly once over the following
/// steps: on step `k`, when it runs out.
pub proof fn lemma_sound_timer_beeps_once(s: MachineState, j: nat)
    requires
        s.sound_timer > 0,
    ensures
        timers_ticked_times(s, j).beeps() == (j + 1 == s.sound_timer),
{
    lemma_timers_count_down(s, j);
}

/// How many of the first `k` timer steps sound the beep.
pub open spec fn beep_count(s: MachineState, k: nat) -> nat
    decreases k,
{
    if k == 0 {
        0
    } else {
        beep_count(s, (k - 1) as nat) + if timers_ticked_times(s, (k - 1) as nat).beeps() {
            1nat
        } else {
            0nat
        }
    }
}

/// Over `k` timer steps the beep sounds exactly once if the sound timer
/// was between 1 and `k`, and never otherwise.
pub proof fn lemma_beep_count(s: MachineState, k: nat)
    ensures
        beep_count(s, k) == if 1 <= s.sound_timer <= k { 1nat } else { 0nat },
    decreases k,
{
    if k > 0 {
        lemma_beep_count(s, (k - 1) as nat);
        lemma_timers_count_down(s, (k - 1) as nat);
    }
}

/// After 255 timer steps both timers have run out, whatever they were.
pub proof fn lemma_timers_run_out(s: MachineState, k: nat)
    requires
        k >= 255,
    ensures
        timers_ticked_times(s, k).delay_timer == 0,
        timers_ticked_times(s, k).sound_timer == 0,
{
    lemma_timers_count_down(s, k);
}

} // verus!

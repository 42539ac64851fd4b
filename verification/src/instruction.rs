//! The instruction set and the decoding of 16-bit opcodes.

use vstd::prelude::*;

verus! {

/// One decoded CHIP-8 instruction. Register operands `x` and `y` are
/// register numbers (below 16), `addr` is a 12-bit address, `nn` an
/// immediate byte and `n` a 4-bit sprite height.
#[derive(Clone, Copy, Debug, PartialEq, Eq)]
pub enum Instruction {
    /// `00E0`: clear the display.
    ClearScreen,
    /// `00EE`: return from a subroutine.
    Return,
    /// `1NNN`: jump to `NNN`.
    Jump { addr: u16 },
    /// `2NNN`: call the subroutine at `NNN`.
    Call { addr: u16 },
    /// `3XNN`: skip the next instruction if `VX == NN`.
    SkipIfEqualImm { x: u8, nn: u8 },
    /// `4XNN`: skip the next instruction if `VX != NN`.
    SkipIfNotEqualImm { x: u8, nn: u8 },
    /// `5XY0`: skip the next instruction if `VX == VY`.
    SkipIfEqualReg { x: u8, y: u8 },
    /// `6XNN`: `VX = NN`.
    LoadImm { x: u8, nn: u8 },
    /// `7XNN`: `VX += NN`, wrapping, `VF` untouched.
    AddImm { x: u8, nn: u8 },
    /// `8XY0`: `VX = VY`.
    Move { x: u8, y: u8 },
    /// `8XY1`: `VX |= VY`.
    Or { x: u8, y: u8 },
    /// `8XY2`: `VX &= VY`.
    And { x: u8, y: u8 },
    /// `8XY3`: `VX ^= VY`.
    Xor { x: u8, y: u8 },
    /// `8XY4`: `VX += VY`, `VF` = carry.
    AddReg { x: u8, y: u8 },
    /// `8XY5`: `VX -= VY`, `VF` = no borrow.
    SubReg { x: u8, y: u8 },
    /// `8XY6`: `VX >>= 1`, `VF` = the bit shifted out.
    ShiftRight { x: u8, y: u8 },
    /// `8XY7`: `VX = VY - VX`, `VF` = no borrow.
    SubReverse { x: u8, y: u8 },
    /// `8XYE`: `VX <<= 1`, `VF` = the bit shifted out.
    ShiftLeft { x: u8, y: u8 },
    /// `9XY0`: skip the next instruction if `VX != VY`.
    SkipIfNotEqualReg { x: u8, y: u8 },
    /// `ANNN`: `I = NNN`.
    LoadIndex { addr: u16 },
    /// `BNNN`: jump to `NNN + V0`.
    JumpOffset { addr: u16 },
    /// `CXNN`: `VX` = a random byte AND `NN`.
    Random { x: u8, nn: u8 },
    /// `DXYN`: draw the `N`-row sprite at `I` at (`VX`, `VY`), `VF` = collision.
    Draw { x: u8, y: u8, n: u8 },
    /// `EX9E`: skip the next instruction if key `VX` is down.
    SkipIfKey { x: u8 },
    /// `EXA1`: skip the next instruction if key `VX` is up.
    SkipIfNotKey { x: u8 },
    /// `FX07`: `VX` = delay timer.
    LoadDelay { x: u8 },
    /// `FX0A`: wait for a key press and store the key in `VX`.
    WaitKey { x: u8 },
    /// `FX15`: delay timer = `VX`.
    SetDelay { x: u8 },
    /// `FX18`: sound timer = `VX`.
    SetSound { x: u8 },
    /// `FX1E`: `I += VX`, wrapping.
    AddIndex { x: u8 },
    /// `FX29`: `I` = address of the font glyph of `VX`.
    FontChar { x: u8 },
    /// `FX33`: store the decimal digits of `VX` at `I`, `I+1`, `I+2`.
    StoreBcd { x: u8 },
    /// `FX55`: store `V0..=VX` at `I..=I+X`.
    StoreRegs { x: u8 },
    /// `FX65`: load `V0..=VX` from `I..=I+X`.
    LoadRegs { x: u8 },
}

/// First hexadecimal digit of an opcode: the instruction category.
pub open spec fn op_c(op: u16) -> u16 {
    op / 0x1000
}

/// Second hexadecimal digit of an opcode: register `X`.
pub open spec fn op_x(op: u16) -> u16 {
    (op / 0x100) % 0x10
}

/// Third hexadecimal digit of an opcode: register `Y`.
pub open spec fn op_y(op: u16) -> u16 {
    (op / 0x10) % 0x10
}

/// Fourth hexadecimal digit of an opcode: `N`.
pub open spec fn op_n(op: u16) -> u16 {
    op % 0x10
}

/// Low byte of an opcode: `NN`.
pub open spec fn op_nn(op: u16) -> u8 {
    (op % 0x100) as u8
}

/// Low twelve bits of an opcode: `NNN`.
pub open spec fn op_nnn(op: u16) -> u16 {
    op % 0x1000
}

/// The instruction that an opcode encodes, or `None` for an opcode outside
/// the instruction set.
pub open spec fn decode_spec(op: u16) -> Option<Instruction> {
    let c = op_c(op);
    let x = op_x(op) as u8;
    let y = op_y(op) as u8;
    let n = op_n(op);
    let nn = op_nn(op);
    let addr = op_nnn(op);
    if c == 0 {
        if op == 0x00E0 {
            Some(Instruction::ClearScreen)
        } else if op == 0x00EE {
            Some(Instruction::Return)
        } else {
            None
        }
    } else if c == 1 {
        Some(Instruction::Jump { addr })
    } else if c == 2 {
        Some(Instruction::Call { addr })
    } else if c == 3 {
        Some(Instruction::SkipIfEqualImm { x, nn })
    } else if c == 4 {
        Some(Instruction::SkipIfNotEqualImm { x, nn })
    } else if c == 5 {
        if n == 0 { Some(Instruction::SkipIfEqualReg { x, y }) } else { None }
    } else if c == 6 {
        Some(Instruction::LoadImm { x, nn })
    } else if c == 7 {
        Some(Instruction::AddImm { x, nn })
    } else if c == 8 {
        if n == 0 {
            Some(Instruction::Move { x, y })
        } else if n == 1 {
            Some(Instruction::Or { x, y })
        } else if n == 2 {
            Some(Instruction::And { x, y })
        } else if n == 3 {
            Some(Instruction::Xor { x, y })
        } else if n == 4 {
            Some(Instruction::AddReg { x, y })
        } else if n == 5 {
            Some(Instruction::SubReg { x, y })
        } else if n == 6 {
            Some(Instruction::ShiftRight { x, y })
        } else if n == 7 {
            Some(Instruction::SubReverse { x, y })
        } else if n == 0xE {
            Some(Instruction::ShiftLeft { x, y })
        } else {
            None
        }
    } else if c == 9 {
        if n == 0 { Some(Instruction::SkipIfNotEqualReg { x, y }) } else { None }
    } else if c == 0xA {
        Some(Instruction::LoadIndex { addr })
    } else if c == 0xB {
        Some(Instruction::JumpOffset { addr })
    } else if c == 0xC {
        Some(Instruction::Random { x, nn })
    } else if c == 0xD {
        Some(Instruction::Draw { x, y, n: n as u8 })
    } else if c == 0xE {
        if nn == 0x9E {
            Some(Instruction::SkipIfKey { x })
        } else if nn == 0xA1 {
            Some(Instruction::SkipIfNotKey { x })
        } else {
            None
        }
    } else {
        // c == 0xF
        if nn == 0x07 {
            Some(Instruction::LoadDelay { x })
        } else if nn == 0x0A {
            Some(Instruction::WaitKey { x })
        } else if nn == 0x15 {
            Some(Instruction::SetDelay { x })
        } else if nn == 0x18 {
            Some(Instruction::SetSound { x })
        } else if nn == 0x1E {
            Some(Instruction::AddIndex { x })
        } else if nn == 0x29 {
            Some(Instruction::FontChar { x })
        } else if nn == 0x33 {
            Some(Instruction::StoreBcd { x })
        } else if nn == 0x55 {
            Some(Instruction::StoreRegs { x })
        } else if nn == 0x65 {
            Some(Instruction::LoadRegs { x })
        } else {
            None
        }
    }
}

/// The opcode whose four hexadecimal digits are `c`, `x`, `y`, `n`.
pub open spec fn op_digits(c: int, x: int, y: int, n: int) -> u16 {
    (c * 0x1000 + x * 0x100 + y * 0x10 + n) as u16
}

/// The opcode with category `c`, register `x` and low byte `nn`.
pub open spec fn op_register_byte(c: int, x: int, nn: int) -> u16 {
    (c * 0x1000 + x * 0x100 + nn) as u16
}

/// The opcode with category `c` and twelve-bit address `addr`.
pub open spec fn op_address(c: int, addr: int) -> u16 {
    (c * 0x1000 + addr) as u16
}

/// The opcode of each instruction, as the instruction set lays it out.
pub open spec fn encode(ins: Instruction) -> u16 {
    match ins {
        Instruction::ClearScreen => 0x00E0,
        Instruction::Return => 0x00EE,
        Instruction::Jump { addr } => op_address(0x1, addr as int),
        Instruction::Call { addr } => op_address(0x2, addr as int),
        Instruction::SkipIfEqualImm { x, nn } => op_register_byte(0x3, x as int, nn as int),
        Instruction::SkipIfNotEqualImm { x, nn } => op_register_byte(0x4, x as int, nn as int),
        Instruction::SkipIfEqualReg { x, y } => op_digits(0x5, x as int, y as int, 0x0),
        Instruction::LoadImm { x, nn } => op_register_byte(0x6, x as int, nn as int),
        Instruction::AddImm { x, nn } => op_register_byte(0x7, x as int, nn as int),
        Instruction::Move { x, y } => op_digits(0x8, x as int, y as int, 0x0),
        Instruction::Or { x, y } => op_digits(0x8, x as int, y as int, 0x1),
        Instruction::And { x, y } => op_digits(0x8, x as int, y as int, 0x2),
        Instruction::Xor { x, y } => op_digits(0x8, x as int, y as int, 0x3),
        Instruction::AddReg { x, y } => op_digits(0x8, x as int, y as int, 0x4),
        Instruction::SubReg { x, y } => op_digits(0x8, x as int, y as int, 0x5),
        Instruction::ShiftRight { x, y } => op_digits(0x8, x as int, y as int, 0x6),
        Instruction::SubReverse { x, y } => op_digits(0x8, x as int, y as int, 0x7),
        Instruction::ShiftLeft { x, y } => op_digits(0x8, x as int, y as int, 0xE),
        Instruction::SkipIfNotEqualReg { x, y } => op_digits(0x9, x as int, y as int, 0x0),
        Instruction::LoadIndex { addr } => op_address(0xA, addr as int),
        Instruction::JumpOffset { addr } => op_address(0xB, addr as int),
        Instruction::Random { x, nn } => op_register_byte(0xC, x as int, nn as int),
        Instruction::Draw { x, y, n } => op_digits(0xD, x as int, y as int, n as int),
        Instruction::SkipIfKey { x } => op_register_byte(0xE, x as int, 0x9E),
        Instruction::SkipIfNotKey { x } => op_register_byte(0xE, x as int, 0xA1),
        Instruction::LoadDelay { x } => op_register_byte(0xF, x as int, 0x07),
        Instruction::WaitKey { x } => op_register_byte(0xF, x as int, 0x0A),
        Instruction::SetDelay { x } => op_register_byte(0xF, x as int, 0x15),
        Instruction::SetSound { x } => op_register_byte(0xF, x as int, 0x18),
        Instruction::AddIndex { x } => op_register_byte(0xF, x as int, 0x1E),
        Instruction::FontChar { x } => op_register_byte(0xF, x as int, 0x29),
        Instruction::StoreBcd { x } => op_register_byte(0xF, x as int, 0x33),
        Instruction::StoreRegs { x } => op_register_byte(0xF, x as int, 0x55),
        Instruction::LoadRegs { x } => op_register_byte(0xF, x as int, 0x65),
    }
}

/// An opcode is the sum of its digits at their places.
proof fn lemma_op_parts(op: u16)
    ensures
        op as int == op_c(op) * 0x1000 + op_x(op) * 0x100 + op_y(op) * 0x10 + op_n(op),
        op_nn(op) as int == op_y(op) * 0x10 + op_n(op),
        op_nnn(op) as int == op_x(op) * 0x100 + op_nn(op),
        op_c(op) < 16,
{
    assert(op as int == (op / 0x1000) * 0x1000 + ((op / 0x100) % 0x10) * 0x100 + ((op / 0x10)
        % 0x10) * 0x10 + op % 0x10) by (nonlinear_arith);
    assert(op % 0x100 == ((op / 0x10) % 0x10) * 0x10 + op % 0x10) by (nonlinear_arith);
    assert(op % 0x1000 == ((op / 0x100) % 0x10) * 0x100 + op % 0x100) by (nonlinear_arith);
}

/// The digits of an opcode built from digits are those digits.
proof fn lemma_digits_of(c: int, x: int, y: int, n: int)
    requires
        0 <= c < 16,
        0 <= x < 16,
        0 <= y < 16,
        0 <= n < 16,
    ensures
        ({
            let op = op_digits(c, x, y, n);
            &&& op as int == c * 0x1000 + x * 0x100 + y * 0x10 + n
            &&& op_c(op) == c
            &&& op_x(op) == x
            &&& op_y(op) == y
            &&& op_n(op) == n
            &&& op_nn(op) as int == y * 0x10 + n
            &&& op_nnn(op) as int == x * 0x100 + y * 0x10 + n
        }),
{
    let v = c * 0x1000 + x * 0x100 + y * 0x10 + n;
    assert(v / 0x1000 == c && (v / 0x100) % 0x10 == x && (v / 0x10) % 0x10 == y && v % 0x10 == n
        && v % 0x100 == y * 0x10 + n && v % 0x1000 == x * 0x100 + y * 0x10 + n) by (nonlinear_arith)
        requires
            v == c * 0x1000 + x * 0x100 + y * 0x10 + n,
            0 <= c < 16,
            0 <= x < 16,
            0 <= y < 16,
            0 <= n < 16,
    ;
}

/// Decoding loses nothing: encoding a decoded instruction gives back the
/// opcode.
pub proof fn lemma_encode_of_decode(op: u16)
    ensures
        decode_spec(op) matches Some(ins) ==> encode(ins) == op,
{
    lemma_op_parts(op);
}

/// An opcode built from a register and a byte, by its digits.
proof fn lemma_register_byte_digits(c: int, x: int, nn: int)
    requires
        0 <= c < 16,
        0 <= x < 16,
        0 <= nn < 256,
    ensures
        op_register_byte(c, x, nn) == op_digits(c, x, nn / 0x10, nn % 0x10),
{
    lemma_digits_of(c, x, nn / 0x10, nn % 0x10);
}

/// An opcode built from an address, by its digits.
proof fn lemma_address_digits(c: int, addr: int)
    requires
        0 <= c < 16,
        0 <= addr < 0x1000,
    ensures
        op_address(c, addr) == op_digits(c, addr / 0x100, (addr / 0x10) % 0x10, addr % 0x10),
{
    lemma_digits_of(c, addr / 0x100, (addr / 0x10) % 0x10, addr % 0x10);
}

/// Every instruction with operands in range is decoded from its encoding.
pub proof fn lemma_decode_of_encode(ins: Instruction)
    requires
        ins.wf(),
    ensures
        decode_spec(encode(ins)) == Some(ins),
{
    match ins {
        Instruction::ClearScreen | Instruction::Return => {},
        Instruction::Jump { addr } => lemma_address_digits(0x1, addr as int),
        Instruction::Call { addr } => lemma_address_digits(0x2, addr as int),
        Instruction::LoadIndex { addr } => lemma_address_digits(0xA, addr as int),
        Instruction::JumpOffset { addr } => lemma_address_digits(0xB, addr as int),
        Instruction::SkipIfEqualImm { x, nn } => lemma_register_byte_digits(0x3, x as int, nn as int),
        Instruction::SkipIfNotEqualImm { x, nn } => lemma_register_byte_digits(
            0x4,
            x as int,
            nn as int,
        ),
        Instruction::LoadImm { x, nn } => lemma_register_byte_digits(0x6, x as int, nn as int),
        Instruction::AddImm { x, nn } => lemma_register_byte_digits(0x7, x as int, nn as int),
        Instruction::Random { x, nn } => lemma_register_byte_digits(0xC, x as int, nn as int),
        Instruction::SkipIfEqualReg { x, y } => lemma_digits_of(0x5, x as int, y as int, 0),
        Instruction::Move { x, y } => lemma_digits_of(0x8, x as int, y as int, 0x0),
        Instruction::Or { x, y } => lemma_digits_of(0x8, x as int, y as int, 0x1),
        Instruction::And { x, y } => lemma_digits_of(0x8, x as int, y as int, 0x2),
        Instruction::Xor { x, y } => lemma_digits_of(0x8, x as int, y as int, 0x3),
        Instruction::AddReg { x, y } => lemma_digits_of(0x8, x as int, y as int, 0x4),
        Instruction::SubReg { x, y } => lemma_digits_of(0x8, x as int, y as int, 0x5),
        Instruction::ShiftRight { x, y } => lemma_digits_of(0x8, x as int, y as int, 0x6),
        Instruction::SubReverse { x, y } => lemma_digits_of(0x8, x as int, y as int, 0x7),
        Instruction::ShiftLeft { x, y } => lemma_digits_of(0x8, x as int, y as int, 0xE),
        Instruction::SkipIfNotEqualReg { x, y } => lemma_digits_of(0x9, x as int, y as int, 0x0),
        Instruction::Draw { x, y, n } => lemma_digits_of(0xD, x as int, y as int, n as int),
        Instruction::SkipIfKey { x } => lemma_register_byte_digits(0xE, x as int, 0x9E),
        Instruction::SkipIfNotKey { x } => lemma_register_byte_digits(0xE, x as int, 0xA1),
        Instruction::LoadDelay { x } => lemma_register_byte_digits(0xF, x as int, 0x07),
        Instruction::WaitKey { x } => lemma_register_byte_digits(0xF, x as int, 0x0A),
        Instruction::SetDelay { x } => lemma_register_byte_digits(0xF, x as int, 0x15),
        Instruction::SetSound { x } => lemma_register_byte_digits(0xF, x as int, 0x18),
        Instruction::AddIndex { x } => lemma_register_byte_digits(0xF, x as int, 0x1E),
        Instruction::FontChar { x } => lemma_register_byte_digits(0xF, x as int, 0x29),
        Instruction::StoreBcd { x } => lemma_register_byte_digits(0xF, x as int, 0x33),
        Instruction::StoreRegs { x } => lemma_register_byte_digits(0xF, x as int, 0x55),
        Instruction::LoadRegs { x } => lemma_register_byte_digits(0xF, x as int, 0x65),
    }
}

impl Instruction {
    /// Every operand is within the range of its field in an opcode.
    pub open spec fn wf(self) -> bool {
        match self {
            Instruction::ClearScreen | Instruction::Return => true,
            Instruction::Jump { addr } | Instruction::Call { addr }
            | Instruction::LoadIndex { addr } | Instruction::JumpOffset { addr } => addr < 0x1000,
            Instruction::SkipIfEqualImm { x, nn } | Instruction::SkipIfNotEqualImm { x, nn }
            | Instruction::LoadImm { x, nn } | Instruction::AddImm { x, nn }
            | Instruction::Random { x, nn } => x < 16,
            Instruction::SkipIfEqualReg { x, y } | Instruction::Move { x, y }
            | Instruction::Or { x, y } | Instruction::And { x, y } | Instruction::Xor { x, y }
            | Instruction::AddReg { x, y } | Instruction::SubReg { x, y }
            | Instruction::ShiftRight { x, y } | Instruction::SubReverse { x, y }
            | Instruction::ShiftLeft { x, y }
            | Instruction::SkipIfNotEqualReg { x, y } => x < 16 && y < 16,
            Instruction::Draw { x, y, n } => x < 16 && y < 16 && n < 16,
            Instruction::SkipIfKey { x } | Instruction::SkipIfNotKey { x }
            | Instruction::LoadDelay { x } | Instruction::WaitKey { x }
            | Instruction::SetDelay { x } | Instruction::SetSound { x }
            | Instruction::AddIndex { x } | Instruction::FontChar { x }
            | Instruction::StoreBcd { x } | Instruction::StoreRegs { x }
            | Instruction::LoadRegs { x } => x < 16,
        }
    }
}

/// Every instruction that decoding yields has its operands in range.
pub proof fn lemma_decode_wf(op: u16)
    ensures
        decode_spec(op) matches Some(ins) ==> ins.wf(),
{
}

/// Decodes a 16-bit opcode; `None` for an opcode outside the instruction set.
pub fn decode(op: u16) -> (res: Option<Instruction>)
    ensures
        res == decode_spec(op),
        res matches Some(ins) ==> ins.wf(),
        forall|ins: Instruction| (res == Some(ins)) <==> (ins.wf() && #[trigger] encode(ins) == op),
{
    let c = op / 0x1000;
    let x = ((op / 0x100) % 0x10) as u8;
    let y = ((op / 0x10) % 0x10) as u8;
    let n = op % 0x10;
    let nn = (op % 0x100) as u8;
    let addr = op % 0x1000;
    let res = if c == 0 {
        if op == 0x00E0 {
            Some(Instruction::ClearScreen)
        } else if op == 0x00EE {
            Some(Instruction::Return)
        } else {
            None
        }
    } else if c == 1 {
        Some(Instruction::Jump { addr })
    } else if c == 2 {
        Some(Instruction::Call { addr })
    } else if c == 3 {
        Some(Instruction::SkipIfEqualImm { x, nn })
    } else if c == 4 {
        Some(Instruction::SkipIfNotEqualImm { x, nn })
    } else if c == 5 {
        if n == 0 { Some(Instruction::SkipIfEqualReg { x, y }) } else { None }
    } else if c == 6 {
        Some(Instruction::LoadImm { x, nn })
    } else if c == 7 {
        Some(Instruction::AddImm { x, nn })
    } else if c == 8 {
        if n == 0 {
            Some(Instruction::Move { x, y })
        } else if n == 1 {
            Some(Instruction::Or { x, y })
        } else if n == 2 {
            Some(Instruction::And { x, y })
        } else if n == 3 {
            Some(Instruction::Xor { x, y })
        } else if n == 4 {
            Some(Instruction::AddReg { x, y })
        } else if n == 5 {
            Some(Instruction::SubReg { x, y })
        } else if n == 6 {
            Some(Instruction::ShiftRight { x, y })
        } else if n == 7 {
            Some(Instruction::SubReverse { x, y })
        } else if n == 0xE {
            Some(Instruction::ShiftLeft { x, y })
        } else {
            None
        }
    } else if c == 9 {
        if n == 0 { Some(Instruction::SkipIfNotEqualReg { x, y }) } else { None }
    } else if c == 0xA {
        Some(Instruction::LoadIndex { addr })
    } else if c == 0xB {
        Some(Instruction::JumpOffset { addr })
    } else if c == 0xC {
        Some(Instruction::Random { x, nn })
    } else if c == 0xD {
        Some(Instruction::Draw { x, y, n: n as u8 })
    } else if c == 0xE {
        if nn == 0x9E {
            Some(Instruction::SkipIfKey { x })
        } else if nn == 0xA1 {
            Some(Instruction::SkipIfNotKey { x })
        } else {
            None
        }
    } else {
        if nn == 0x07 {
            Some(Instruction::LoadDelay { x })
        } else if nn == 0x0A {
            Some(Instruction::WaitKey { x })
        } else if nn == 0x15 {
            Some(Instruction::SetDelay { x })
        } else if nn == 0x18 {
            Some(Instruction::SetSound { x })
        } else if nn == 0x1E {
            Some(Instruction::AddIndex { x })
        } else if nn == 0x29 {
            Some(Instruction::FontChar { x })
        } else if nn == 0x33 {
            Some(Instruction::StoreBcd { x })
        } else if nn == 0x55 {
            Some(Instruction::StoreRegs { x })
        } else if nn == 0x65 {
            Some(Instruction::LoadRegs { x })
        } else {
            None
        }
    };
    proof {
        lemma_encode_of_decode(op);
        lemma_decode_wf(op);
        assert forall|ins: Instruction| ins.wf() && #[trigger] encode(ins) == op implies res == Some(
            ins,
        ) by {
            lemma_decode_of_encode(ins);
        }
    }
    res
}

} // verus!

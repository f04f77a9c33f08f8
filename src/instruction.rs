use vstd::prelude::*;

verus! {

/// One decoded instruction. `x` and `y` name registers, `nn` is an
/// immediate byte, `addr` a 12-bit address and `n` a sprite height.
#[derive(Clone, Copy, Debug, PartialEq, Eq, Structural)]
pub enum Instruction {
    /// `00E0`: clear the screen.
    Cls,
    /// `00EE`: return from a subroutine.
    Ret,
    /// `1NNN`: jump.
    Jp { addr: u16 },
    /// `2NNN`: call a subroutine.
    Call { addr: u16 },
    /// `3XNN`: skip if `V[x] == nn`.
    SeByte { x: u8, nn: u8 },
    /// `4XNN`: skip if `V[x] != nn`.
    SneByte { x: u8, nn: u8 },
    /// `5XY0`: skip if `V[x] == V[y]`.
    SeReg { x: u8, y: u8 },
    /// `6XNN`: `V[x] = nn`.
    LdByte { x: u8, nn: u8 },
    /// `7XNN`: `V[x] += nn`, wrapping.
    AddByte { x: u8, nn: u8 },
    /// `8XY0`: `V[x] = V[y]`.
    LdReg { x: u8, y: u8 },
    /// `8XY1`: `V[x] |= V[y]`.
    Or { x: u8, y: u8 },
    /// `8XY2`: `V[x] &= V[y]`.
    And { x: u8, y: u8 },
    /// `8XY3`: `V[x] ^= V[y]`.
    Xor { x: u8, y: u8 },
    /// `8XY4`: add with carry into `V[F]`.
    AddReg { x: u8, y: u8 },
    /// `8XY5`: subtract with no-borrow into `V[F]`.
    Sub { x: u8, y: u8 },
    /// `8XY6`: shift right, low bit into `V[F]`.
    Shr { x: u8 },
    /// `8XY7`: reverse subtract with no-borrow into `V[F]`.
    Subn { x: u8, y: u8 },
    /// `8XYE`: shift left, high bit into `V[F]`.
    Shl { x: u8 },
    /// `9XY0`: skip if `V[x] != V[y]`.
    SneReg { x: u8, y: u8 },
    /// `ANNN`: `I = addr`.
    LdIndex { addr: u16 },
    /// `BNNN`: jump to `addr + V[0]`.
    JpV0 { addr: u16 },
    /// `CXNN`: `V[x] = random & nn`.
    Rnd { x: u8, nn: u8 },
    /// `DXYN`: draw an `n`-row sprite at `(V[x], V[y])`.
    Drw { x: u8, y: u8, n: u8 },
    /// `EX9E`: skip if the key `V[x]` is down.
    Skp { x: u8 },
    /// `EXA1`: skip if the key `V[x]` is up.
    Sknp { x: u8 },
    /// `FX07`: `V[x] = delay`.
    LdVxDt { x: u8 },
    /// `FX0A`: wait for a key and store it in `V[x]`.
    LdKey { x: u8 },
    /// `FX15`: `delay = V[x]`.
    LdDtVx { x: u8 },
    /// `FX18`: `sound = V[x]`.
    LdStVx { x: u8 },
    /// `FX1E`: `I += V[x]`, within 12 bits.
    AddIndex { x: u8 },
    /// `FX29`: point `I` at the glyph of digit `V[x]`.
    LdFont { x: u8 },
    /// `FX33`: store the decimal digits of `V[x]` at `I`.
    LdBcd { x: u8 },
    /// `FX55`: store `V[0..=x]` at `I`.
    StoreRegs { x: u8 },
    /// `FX65`: load `V[0..=x]` from `I`.
    LoadRegs { x: u8 },
    /// Any word that matches no encoding above.
    Unknown { word: u16 },
}

/// Bits 8..12 of a word: the first register operand.
pub open spec fn op_x(w: u16) -> u8 {
    ((w >> 8u16) & 0xFu16) as u8
}

/// Bits 4..8 of a word: the second register operand.
pub open spec fn op_y(w: u16) -> u8 {
    ((w >> 4u16) & 0xFu16) as u8
}

/// The low nibble of a word.
pub open spec fn op_n(w: u16) -> u8 {
    (w & 0xFu16) as u8
}

/// The low byte of a word.
pub open spec fn op_nn(w: u16) -> u8 {
    (w & 0xFFu16) as u8
}

/// The low twelve bits of a word.
pub open spec fn op_addr(w: u16) -> u16 {
    w & 0xFFFu16
}

impl Instruction {
    /// Operands are in range: registers and heights below 16, addresses
    /// below 4096.
    pub open spec fn wf(self) -> bool {
        match self {
            Instruction::Jp { addr } | Instruction::Call { addr } | Instruction::LdIndex { addr }
            | Instruction::JpV0 { addr } => addr < 0x1000,
            Instruction::SeByte { x, .. } | Instruction::SneByte { x, .. }
            | Instruction::LdByte { x, .. } | Instruction::AddByte { x, .. }
            | Instruction::Rnd { x, .. } | Instruction::Shr { x } | Instruction::Shl { x }
            | Instruction::Skp { x } | Instruction::Sknp { x } | Instruction::LdVxDt { x }
            | Instruction::LdKey { x } | Instruction::LdDtVx { x } | Instruction::LdStVx { x }
            | Instruction::AddIndex { x } | Instruction::LdFont { x } | Instruction::LdBcd { x }
            | Instruction::StoreRegs { x } | Instruction::LoadRegs { x } => x < 16,
            Instruction::SeReg { x, y } | Instruction::LdReg { x, y } | Instruction::Or { x, y }
            | Instruction::And { x, y } | Instruction::Xor { x, y } | Instruction::AddReg { x, y }
            | Instruction::Sub { x, y } | Instruction::Subn { x, y }
            | Instruction::SneReg { x, y } => x < 16 && y < 16,
            Instruction::Drw { x, y, n } => x < 16 && y < 16 && n < 16,
            Instruction::Cls | Instruction::Ret | Instruction::Unknown { .. } => true,
        }
    }
}

/// The instruction that a word encodes: the top nibble picks a family, and
/// in families 0, 8, E and F the low nibble or low byte picks the operation.
pub open spec fn decode_spec(w: u16) -> Instruction {
    let x = op_x(w);
    let y = op_y(w);
    let nn = op_nn(w);
    let addr = op_addr(w);
    let family = w >> 12u16;
    if family == 0x0 {
        if w == 0x00E0 {
            Instruction::Cls
        } else if w == 0x00EE {
            Instruction::Ret
        } else {
            Instruction::Unknown { word: w }
        }
    } else if family == 0x1 {
        Instruction::Jp { addr }
    } else if family == 0x2 {
        Instruction::Call { addr }
    } else if family == 0x3 {
        Instruction::SeByte { x, nn }
    } else if family == 0x4 {
        Instruction::SneByte { x, nn }
    } else if family == 0x5 {
        if op_n(w) == 0 {
            Instruction::SeReg { x, y }
        } else {
            Instruction::Unknown { word: w }
        }
    } else if family == 0x6 {
        Instruction::LdByte { x, nn }
    } else if family == 0x7 {
        Instruction::AddByte { x, nn }
    } else if family == 0x8 {
        let k = op_n(w);
        if k == 0x0 {
            Instruction::LdReg { x, y }
        } else if k == 0x1 {
            Instruction::Or { x, y }
        } else if k == 0x2 {
            Instruction::And { x, y }
        } else if k == 0x3 {
            Instruction::Xor { x, y }
        } else if k == 0x4 {
            Instruction::AddReg { x, y }
        } else if k == 0x5 {
            Instruction::Sub { x, y }
        } else if k == 0x6 {
            Instruction::Shr { x }
        } else if k == 0x7 {
            Instruction::Subn { x, y }
        } else if k == 0xE {
            Instruction::Shl { x }
        } else {
            Instruction::Unknown { word: w }
        }
    } else if family == 0x9 {
        if op_n(w) == 0 {
            Instruction::SneReg { x, y }
        } else {
            Instruction::Unknown { word: w }
        }
    } else if family == 0xA {
        Instruction::LdIndex { addr }
    } else if family == 0xB {
        Instruction::JpV0 { addr }
    } else if family == 0xC {
        Instruction::Rnd { x, nn }
    } else if family == 0xD {
        Instruction::Drw { x, y, n: op_n(w) }
    } else if family == 0xE {
        if nn == 0x9E {
            Instruction::Skp { x }
        } else if nn == 0xA1 {
            Instruction::Sknp { x }
        } else {
            Instruction::Unknown { word: w }
        }
    } else {
        if nn == 0x07 {
            Instruction::LdVxDt { x }
        } else if nn == 0x0A {
            Instruction::LdKey { x }
        } else if nn == 0x15 {
            Instruction::LdDtVx { x }
        } else if nn == 0x18 {
            Instruction::LdStVx { x }
        } else if nn == 0x1E {
            Instruction::AddIndex { x }
        } else if nn == 0x29 {
            Instruction::LdFont { x }
        } else if nn == 0x33 {
            Instruction::LdBcd { x }
        } else if nn == 0x55 {
            Instruction::StoreRegs { x }
        } else if nn == 0x65 {
            Instruction::LoadRegs { x }
        } else {
            Instruction::Unknown { word: w }
        }
    }
}

/// Every field that decoding extracts is within its width.
proof fn lemma_operands_in_range(w: u16)
    ensures
        op_x(w) < 16,
        op_y(w) < 16,
        op_n(w) < 16,
        op_addr(w) < 0x1000,
        w >> 12u16 < 16,
{
    assert((w >> 8u16) & 0xFu16 < 16) by (bit_vector);
    assert((w >> 4u16) & 0xFu16 < 16) by (bit_vector);
    assert(w & 0xFu16 < 16) by (bit_vector);
    assert(w & 0xFFFu16 < 0x1000) by (bit_vector);
    assert(w >> 12u16 < 16) by (bit_vector);
}

/// Every decoded instruction has its operands in range.
pub proof fn lemma_decode_wf(w: u16)
    ensures
        decode_spec(w).wf(),
{
    lemma_operands_in_range(w);
}

/// Decodes a fetched instruction word.
pub fn decode(w: u16) -> (r: Instruction)
    ensures
        r == decode_spec(w),
        r.wf(),
{
    proof {
        lemma_operands_in_range(w);
    }
    let x = ((w >> 8u16) & 0xFu16) as u8;
    let y = ((w >> 4u16) & 0xFu16) as u8;
    let n = (w & 0xFu16) as u8;
    let nn = (w & 0xFFu16) as u8;
    let addr = w & 0xFFFu16;
    match w >> 12u16 {
        0x0 => match w {
            0x00E0 => Instruction::Cls,
            0x00EE => Instruction::Ret,
            _ => Instruction::Unknown { word: w },
        },
        0x1 => Instruction::Jp { addr },
        0x2 => Instruction::Call { addr },
        0x3 => Instruction::SeByte { x, nn },
        0x4 => Instruction::SneByte { x, nn },
        0x5 => if n == 0 {
            Instruction::SeReg { x, y }
        } else {
            Instruction::Unknown { word: w }
        },
        0x6 => Instruction::LdByte { x, nn },
        0x7 => Instruction::AddByte { x, nn },
        0x8 => match n {
            0x0 => Instruction::LdReg { x, y },
            0x1 => Instruction::Or { x, y },
            0x2 => Instruction::And { x, y },
            0x3 => Instruction::Xor { x, y },
            0x4 => Instruction::AddReg { x, y },
            0x5 => Instruction::Sub { x, y },
            0x6 => Instruction::Shr { x },
            0x7 => Instruction::Subn { x, y },
            0xE => Instruction::Shl { x },
            _ => Instruction::Unknown { word: w },
        },
        0x9 => if n == 0 {
            Instruction::SneReg { x, y }
        } else {
            Instruction::Unknown { word: w }
        },
        0xA => Instruction::LdIndex { addr },
        0xB => Instruction::JpV0 { addr },
        0xC => Instruction::Rnd { x, nn },
        0xD => Instruction::Drw { x, y, n },
        0xE => match nn {
            0x9E => Instruction::Skp { x },
            0xA1 => Instruction::Sknp { x },
            _ => Instruction::Unknown { word: w },
        },
        _ => match nn {
            0x07 => Instruction::LdVxDt { x },
            0x0A => Instruction::LdKey { x },
            0x15 => Instruction::LdDtVx { x },
            0x18 => Instruction::LdStVx { x },
            0x1E => Instruction::AddIndex { x },
            0x29 => Instruction::LdFont { x },
            0x33 => Instruction::LdBcd { x },
            0x55 => Instruction::StoreRegs { x },
            0x65 => Instruction::LoadRegs { x },
            _ => Instruction::Unknown { word: w },
        },
    }
}

} // verus!

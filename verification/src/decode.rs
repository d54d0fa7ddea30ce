use vstd::prelude::*;

verus! {

/// One decoded instruction of the 35-opcode table. Register operands
/// `x` and `y` are 4-bit selectors, `nn` an 8-bit immediate, `n` a
/// 4-bit count and `nnn` a 12-bit address.
#[derive(Clone, Copy, PartialEq, Eq, Structural, Debug)]
pub enum Instr {
    /// `00E0`: clear the display.
    ClearScreen,
    /// `00EE`: pop the call stack into the program counter.
    Return,
    /// `1nnn`: jump.
    Jump { nnn: usize },
    /// `2nnn`: push the return address, then jump.
    Call { nnn: usize },
    /// `3xnn`: skip the next instruction if `V[x] == nn`.
    SkipEqImm { x: usize, nn: u8 },
    /// `4xnn`: skip the next instruction if `V[x] != nn`.
    SkipNeImm { x: usize, nn: u8 },
    /// `5xy0`: skip the next instruction if `V[x] == V[y]`.
    SkipEqReg { x: usize, y: usize },
    /// `6xnn`: `V[x] = nn`.
    SetImm { x: usize, nn: u8 },
    /// `7xnn`: `V[x] += nn`, wrapping, no flag.
    AddImm { x: usize, nn: u8 },
    /// `8xy0`: `V[x] = V[y]`.
    Assign { x: usize, y: usize },
    /// `8xy1`: `V[x] |= V[y]`.
    Or { x: usize, y: usize },
    /// `8xy2`: `V[x] &= V[y]`.
    And { x: usize, y: usize },
    /// `8xy3`: `V[x] ^= V[y]`.
    Xor { x: usize, y: usize },
    /// `8xy4`: `V[x] += V[y]`; `VF` = 1 iff the sum overflowed 8 bits.
    AddReg { x: usize, y: usize },
    /// `8xy5`: `V[x] -= V[y]`; `VF` = 1 iff no borrow occurred.
    SubReg { x: usize, y: usize },
    /// `8xy6`: shift `V[x]` right by one; `VF` = the bit shifted out.
    ShiftRight { x: usize },
    /// `8xy7`: `V[x] = V[y] - V[x]`; `VF` = 1 iff no borrow occurred.
    SubFrom { x: usize, y: usize },
    /// `8xyE`: shift `V[x]` left by one; `VF` = the bit shifted out.
    ShiftLeft { x: usize },
    /// `9xy0`: skip the next instruction if `V[x] != V[y]`.
    SkipNeReg { x: usize, y: usize },
    /// `Annn`: `I = nnn`.
    SetIndex { nnn: usize },
    /// `Bnnn`: jump to `nnn + V[0]`.
    JumpV0 { nnn: usize },
    /// `Cxnn`: `V[x]` = a random byte masked with `nn`.
    Random { x: usize, nn: u8 },
    /// `Dxyn`: blit the `n`-row sprite at `I` to `(V[x], V[y])`;
    /// `VF` = the collision flag.
    Draw { x: usize, y: usize, n: usize },
    /// `Ex9E`: skip the next instruction if key `V[x]` is pressed.
    SkipKey { x: usize },
    /// `ExA1`: skip the next instruction if key `V[x]` is not pressed.
    SkipNoKey { x: usize },
    /// `Fx07`: delay-timer read hook; a no-op here.
    DelayGet { x: usize },
    /// `Fx0A`: blocking key-wait hook; a no-op here.
    WaitKey { x: usize },
    /// `Fx15`: delay-timer write hook; a no-op here.
    DelaySet { x: usize },
    /// `Fx18`: sound-timer write hook; a no-op here.
    SoundSet { x: usize },
    /// `Fx1E`: `I += V[x]`, wrapping, no flag.
    AddIndex { x: usize },
    /// `Fx29`: `I` = the font-glyph address of digit `V[x]`, five bytes
    /// per glyph.
    FontAddr { x: usize },
    /// `Fx33`: store the decimal digits of `V[x]` at `I`, `I+1`, `I+2`.
    StoreBcd { x: usize },
    /// `Fx55`: store `V[0..=x]` at `I..`; `I` advances by `x + 1`.
    StoreRegs { x: usize },
    /// `Fx65`: load `V[0..=x]` from `I..`; `I` advances by `x + 1`.
    LoadRegs { x: usize },
}

impl Instr {
    /// Operand fields stay inside their widths: register selectors are
    /// below 16, addresses below 4096, counts below 16.
    pub open spec fn wf(self) -> bool {
        match self {
            Instr::ClearScreen => true,
            Instr::Return => true,
            Instr::Jump { nnn } => nnn < 4096,
            Instr::Call { nnn } => nnn < 4096,
            Instr::SkipEqImm { x, nn } => x < 16,
            Instr::SkipNeImm { x, nn } => x < 16,
            Instr::SkipEqReg { x, y } => x < 16 && y < 16,
            Instr::SetImm { x, nn } => x < 16,
            Instr::AddImm { x, nn } => x < 16,
            Instr::Assign { x, y } => x < 16 && y < 16,
            Instr::Or { x, y } => x < 16 && y < 16,
            Instr::And { x, y } => x < 16 && y < 16,
            Instr::Xor { x, y } => x < 16 && y < 16,
            Instr::AddReg { x, y } => x < 16 && y < 16,
            Instr::SubReg { x, y } => x < 16 && y < 16,
            Instr::ShiftRight { x } => x < 16,
            Instr::SubFrom { x, y } => x < 16 && y < 16,
            Instr::ShiftLeft { x } => x < 16,
            Instr::SkipNeReg { x, y } => x < 16 && y < 16,
            Instr::SetIndex { nnn } => nnn < 4096,
            Instr::JumpV0 { nnn } => nnn < 4096,
            Instr::Random { x, nn } => x < 16,
            Instr::Draw { x, y, n } => x < 16 && y < 16 && n < 16,
            Instr::SkipKey { x } => x < 16,
            Instr::SkipNoKey { x } => x < 16,
            Instr::DelayGet { x } => x < 16,
            Instr::WaitKey { x } => x < 16,
            Instr::DelaySet { x } => x < 16,
            Instr::SoundSet { x } => x < 16,
            Instr::AddIndex { x } => x < 16,
            Instr::FontAddr { x } => x < 16,
            Instr::StoreBcd { x } => x < 16,
            Instr::StoreRegs { x } => x < 16,
            Instr::LoadRegs { x } => x < 16,
        }
    }
}

/// The opcode table as a function of the two fetched bytes: the top
/// nibble of `hi` selects the family, refined where the family needs it
/// by `nn` or `n`. `None` is an encoding outside the table.
pub open spec fn spec_decode(hi: u8, lo: u8) -> Option<Instr> {
    let x = (hi & 0x0F) as usize;
    let y = ((lo & 0xF0) >> 4u8) as usize;
    let n = (lo & 0x0F) as usize;
    let nn = lo;
    let nnn = ((x * 256) + (lo as usize)) as usize;
    match hi & 0xF0 {
        0x00 => match nn {
            0xE0 => Some(Instr::ClearScreen),
            0xEE => Some(Instr::Return),
            _ => None,
        },
        0x10 => Some(Instr::Jump { nnn }),
        0x20 => Some(Instr::Call { nnn }),
        0x30 => Some(Instr::SkipEqImm { x, nn }),
        0x40 => Some(Instr::SkipNeImm { x, nn }),
        0x50 => Some(Instr::SkipEqReg { x, y }),
        0x60 => Some(Instr::SetImm { x, nn }),
        0x70 => Some(Instr::AddImm { x, nn }),
        0x80 => match n {
            0x0 => Some(Instr::Assign { x, y }),
            0x1 => Some(Instr::Or { x, y }),
            0x2 => Some(Instr::And { x, y }),
            0x3 => Some(Instr::Xor { x, y }),
            0x4 => Some(Instr::AddReg { x, y }),
            0x5 => Some(Instr::SubReg { x, y }),
            0x6 => Some(Instr::ShiftRight { x }),
            0x7 => Some(Instr::SubFrom { x, y }),
            0xE => Some(Instr::ShiftLeft { x }),
            _ => None,
        },
        0x90 => Some(Instr::SkipNeReg { x, y }),
        0xA0 => Some(Instr::SetIndex { nnn }),
        0xB0 => Some(Instr::JumpV0 { nnn }),
        0xC0 => Some(Instr::Random { x, nn }),
        0xD0 => Some(Instr::Draw { x, y, n }),
        0xE0 => match nn {
            0x9E => Some(Instr::SkipKey { x }),
            0xA1 => Some(Instr::SkipNoKey { x }),
            _ => None,
        },
        0xF0 => match nn {
            0x07 => Some(Instr::DelayGet { x }),
            0x0A => Some(Instr::WaitKey { x }),
            0x15 => Some(Instr::DelaySet { x }),
            0x18 => Some(Instr::SoundSet { x }),
            0x1E => Some(Instr::AddIndex { x }),
            0x29 => Some(Instr::FontAddr { x }),
            0x33 => Some(Instr::StoreBcd { x }),
            0x55 => Some(Instr::StoreRegs { x }),
            0x65 => Some(Instr::LoadRegs { x }),
            _ => None,
        },
        _ => None,
    }
}

/// Whatever the table yields is well-formed: every operand field comes
/// out of a mask of its own width.
pub proof fn lemma_decode_wf(hi: u8, lo: u8)
    ensures
        spec_decode(hi, lo) matches Some(instr) ==> instr.wf(),
{
    assert((hi & 0x0F) < 16 && ((lo & 0xF0) >> 4u8) < 16 && (lo & 0x0F) < 16) by (bit_vector);
}

/// Decode the two fetched bytes into an instruction, exactly as the
/// opcode table reads them.
pub fn decode(hi: u8, lo: u8) -> (r: Option<Instr>)
    ensures
        r == spec_decode(hi, lo),
        r matches Some(instr) ==> instr.wf(),
{
    proof {
        lemma_decode_wf(hi, lo);
    }
    let x = (hi & 0x0F) as usize;
    let y = ((lo & 0xF0) >> 4u8) as usize;
    let n = (lo & 0x0F) as usize;
    let nn = lo;
    let nnn = (x * 256) + (lo as usize);
    match hi & 0xF0 {
        0x00 => match nn {
            0xE0 => Some(Instr::ClearScreen),
            0xEE => Some(Instr::Return),
            _ => None,
        },
        0x10 => Some(Instr::Jump { nnn }),
        0x20 => Some(Instr::Call { nnn }),
        0x30 => Some(Instr::SkipEqImm { x, nn }),
        0x40 => Some(Instr::SkipNeImm { x, nn }),
        0x50 => Some(Instr::SkipEqReg { x, y }),
        0x60 => Some(Instr::SetImm { x, nn }),
        0x70 => Some(Instr::AddImm { x, nn }),
        0x80 => match n {
            0x0 => Some(Instr::Assign { x, y }),
            0x1 => Some(Instr::Or { x, y }),
            0x2 => Some(Instr::And { x, y }),
            0x3 => Some(Instr::Xor { x, y }),
            0x4 => Some(Instr::AddReg { x, y }),
            0x5 => Some(Instr::SubReg { x, y }),
            0x6 => Some(Instr::ShiftRight { x }),
            0x7 => Some(Instr::SubFrom { x, y }),
            0xE => Some(Instr::ShiftLeft { x }),
            _ => None,
        },
        0x90 => Some(Instr::SkipNeReg { x, y }),
        0xA0 => Some(Instr::SetIndex { nnn }),
        0xB0 => Some(Instr::JumpV0 { nnn }),
        0xC0 => Some(Instr::Random { x, nn }),
        0xD0 => Some(Instr::Draw { x, y, n }),
        0xE0 => match nn {
            0x9E => Some(Instr::SkipKey { x }),
            0xA1 => Some(Instr::SkipNoKey { x }),
            _ => None,
        },
        0xF0 => match nn {
            0x07 => Some(Instr::DelayGet { x }),
            0x0A => Some(Instr::WaitKey { x }),
            0x15 => Some(Instr::DelaySet { x }),
            0x18 => Some(Instr::SoundSet { x }),
            0x1E => Some(Instr::AddIndex { x }),
            0x29 => Some(Instr::FontAddr { x }),
            0x33 => Some(Instr::StoreBcd { x }),
            0x55 => Some(Instr::StoreRegs { x }),
            0x65 => Some(Instr::LoadRegs { x }),
            _ => None,
        },
        _ => None,
    }
}

} // verus!

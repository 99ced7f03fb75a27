//! Decoding of 16-bit instruction words into tagged instructions.
use vstd::prelude::*;

verus! {

/// One decoded CHIP-8 instruction. `x` and `y` name registers (0..16),
/// `nn` is an immediate byte, `addr` a 12-bit address and `n` a 4-bit count.
#[derive(Debug, Clone, Copy, PartialEq, Eq, Structural)]
pub enum Instruction {
    /// `00E0`: clear the framebuffer.
    ClearScreen,
    /// `00EE`: return from a subroutine.
    Return,
    /// `1NNN`: jump to `addr`.
    Jump { addr: u16 },
    /// `2NNN`: call the subroutine at `addr`.
    Call { addr: u16 },
    /// `3XNN`: skip the next instruction if `VX == nn`.
    SkipEqImm { x: u8, nn: u8 },
    /// `4XNN`: skip the next instruction if `VX != nn`.
    SkipNeImm { x: u8, nn: u8 },
    /// `5XY0`: skip the next instruction if `VX == VY`.
    SkipEqReg { x: u8, y: u8 },
    /// `6XNN`: `VX = nn`.
    LoadImm { x: u8, nn: u8 },
    /// `7XNN`: `VX = VX + nn` (wrapping, no flag).
    AddImm { x: u8, nn: u8 },
    /// `8XY0`: `VX = VY`.
    Move { x: u8, y: u8 },
    /// `8XY1`: `VX = VX | VY`.
    Or { x: u8, y: u8 },
    /// `8XY2`: `VX = VX & VY`.
    And { x: u8, y: u8 },
    /// `8XY3`: `VX = VX ^ VY`.
    Xor { x: u8, y: u8 },
    /// `8XY4`: `VX = VX + VY`, carry into `VF`.
    AddReg { x: u8, y: u8 },
    /// `8XY5`: `VX = VX - VY`, `VF` = no borrow.
    SubReg { x: u8, y: u8 },
    /// `8XY6`: `VF = VX & 1`, then `VX >>= 1`.
    ShiftRight { x: u8 },
    /// `8XY7`: `VX = VY - VX`, `VF` = no borrow.
    SubRev { x: u8, y: u8 },
    /// `8XYE`: `VF = VX & 0x80`, then `VX <<= 1`.
    ShiftLeft { x: u8 },
    /// `9XY0`: skip the next instruction if `VX != VY`.
    SkipNeReg { x: u8, y: u8 },
    /// `ANNN`: `I = addr`.
    LoadIndex { addr: u16 },
    /// `BNNN`: jump to `V0 + addr`.
    JumpOffset { addr: u16 },
    /// `CXNN`: `VX = random byte & nn`.
    Random { x: u8, nn: u8 },
    /// `DXYN`: draw the `n + 1` sprite rows at `I` at `(VX, VY)`.
    Draw { x: u8, y: u8, n: u8 },
    /// `EX9E`: skip the next instruction if key `VX` is pressed.
    SkipKeyPressed { x: u8 },
    /// `EXA1`: skip the next instruction if key `VX` is not pressed.
    SkipKeyReleased { x: u8 },
    /// `FX07`: `VX = delay timer`.
    LoadDelay { x: u8 },
    /// `FX0A`: wait for a key press and store its index in `VX`.
    WaitKey { x: u8 },
    /// `FX15`: `delay timer = VX`.
    SetDelay { x: u8 },
    /// `FX18`: `sound timer = VX`.
    SetSound { x: u8 },
    /// `FX1E`: `I = I + VX` (16-bit, no flag).
    AddIndex { x: u8 },
    /// `FX29`: `I` = address of the font glyph for digit `VX`.
    FontGlyph { x: u8 },
    /// `FX33`: store the three decimal digits of `VX` at `I`, `I+1`, `I+2`.
    StoreBcd { x: u8 },
    /// `FX55`: store `V0..=VX` at `I..=I+X`.
    StoreRegs { x: u8 },
    /// `FX65`: load `V0..=VX` from `I..=I+X`.
    LoadRegs { x: u8 },
}

impl Instruction {
    /// Every operand is within the range its field in an instruction word has.
    pub open spec fn wf(self) -> bool {
        match self {
            Instruction::ClearScreen | Instruction::Return => true,
            Instruction::Jump { addr } | Instruction::Call { addr }
            | Instruction::LoadIndex { addr } | Instruction::JumpOffset { addr } => addr < 0x1000,
            Instruction::SkipEqImm { x, .. } | Instruction::SkipNeImm { x, .. }
            | Instruction::LoadImm { x, .. } | Instruction::AddImm { x, .. }
            | Instruction::Random { x, .. } => x < 16,
            Instruction::SkipEqReg { x, y } | Instruction::Move { x, y } | Instruction::Or { x, y }
            | Instruction::And { x, y } | Instruction::Xor { x, y } | Instruction::AddReg { x, y }
            | Instruction::SubReg { x, y } | Instruction::SubRev { x, y }
            | Instruction::SkipNeReg { x, y } => x < 16 && y < 16,
            Instruction::Draw { x, y, n } => x < 16 && y < 16 && n < 16,
            Instruction::ShiftRight { x } | Instruction::ShiftLeft { x }
            | Instruction::SkipKeyPressed { x } | Instruction::SkipKeyReleased { x }
            | Instruction::LoadDelay { x } | Instruction::WaitKey { x }
            | Instruction::SetDelay { x } | Instruction::SetSound { x }
            | Instruction::AddIndex { x } | Instruction::FontGlyph { x }
            | Instruction::StoreBcd { x } | Instruction::StoreRegs { x }
            | Instruction::LoadRegs { x } => x < 16,
        }
    }
}

/// Top nibble of an instruction word.
pub open spec fn op_of(w: u16) -> int {
    w as int / 0x1000
}

/// Second nibble: the `X` register index.
pub open spec fn x_of(w: u16) -> u8 {
    ((w as int / 0x100) % 16) as u8
}

/// Third nibble: the `Y` register index.
pub open spec fn y_of(w: u16) -> u8 {
    ((w as int / 0x10) % 16) as u8
}

/// Bottom nibble.
pub open spec fn n_of(w: u16) -> u8 {
    (w as int % 16) as u8
}

/// Low byte.
pub open spec fn nn_of(w: u16) -> u8 {
    (w as int % 0x100) as u8
}

/// Low twelve bits.
pub open spec fn nnn_of(w: u16) -> u16 {
    (w as int % 0x1000) as u16
}

/// The instruction that a word encodes, or `None` for a word that matches no
/// recognised opcode (the legacy `0NNN` machine-code call included).
pub open spec fn decoded(w: u16) -> Option<Instruction> {
    let (op, x, y, n, nn, nnn) = (op_of(w), x_of(w), y_of(w), n_of(w), nn_of(w), nnn_of(w));
    if op == 0x0 {
        if w == 0x00E0 {
            Some(Instruction::ClearScreen)
        } else if w == 0x00EE {
            Some(Instruction::Return)
        } else {
            None
        }
    } else if op == 0x1 {
        Some(Instruction::Jump { addr: nnn })
    } else if op == 0x2 {
        Some(Instruction::Call { addr: nnn })
    } else if op == 0x3 {
        Some(Instruction::SkipEqImm { x, nn })
    } else if op == 0x4 {
        Some(Instruction::SkipNeImm { x, nn })
    } else if op == 0x5 {
        Some(Instruction::SkipEqReg { x, y })
    } else if op == 0x6 {
        Some(Instruction::LoadImm { x, nn })
    } else if op == 0x7 {
        Some(Instruction::AddImm { x, nn })
    } else if op == 0x8 {
        if n == 0x0 {
            Some(Instruction::Move { x, y })
        } else if n == 0x1 {
            Some(Instruction::Or { x, y })
        } else if n == 0x2 {
            Some(Instruction::And { x, y })
        } else if n == 0x3 {
            Some(Instruction::Xor { x, y })
        } else if n == 0x4 {
            Some(Instruction::AddReg { x, y })
        } else if n == 0x5 {
            Some(Instruction::SubReg { x, y })
        } else if n == 0x6 {
            Some(Instruction::ShiftRight { x })
        } else if n == 0x7 {
            Some(Instruction::SubRev { x, y })
        } else if n == 0xE {
            Some(Instruction::ShiftLeft { x })
        } else {
            None
        }
    } else if op == 0x9 {
        Some(Instruction::SkipNeReg { x, y })
    } else if op == 0xA {
        Some(Instruction::LoadIndex { addr: nnn })
    } else if op == 0xB {
        Some(Instruction::JumpOffset { addr: nnn })
    } else if op == 0xC {
        Some(Instruction::Random { x, nn })
    } else if op == 0xD {
        Some(Instruction::Draw { x, y, n })
    } else if op == 0xE {
        if nn == 0x9E {
            Some(Instruction::SkipKeyPressed { x })
        } else if nn == 0xA1 {
            Some(Instruction::SkipKeyReleased { x })
        } else {
            None
        }
    } else {
        if nn == 0x07 {
            Some(Instruction::LoadDelay { x })
        } else if nn == 0x0A {
            Some(Instruction::WaitKey { x })
        } else if nn == 0x15 {
            Some(Instruction::SetDelay { x })
        } else if nn == 0x18 {
            Some(Instruction::SetSound { x })
        } else if nn == 0x1E {
            Some(Instruction::AddIndex { x })
        } else if nn == 0x29 {
            Some(Instruction::FontGlyph { x })
        } else if nn == 0x33 {
            Some(Instruction::StoreBcd { x })
        } else if nn == 0x55 {
            Some(Instruction::StoreRegs { x })
        } else if nn == 0x65 {
            Some(Instruction::LoadRegs { x })
        } else {
            None
        }
    }
}

/// Splits an instruction word into its fields and dispatches on its opcode
/// family; `None` for a word that encodes no supported instruction.
pub fn decode(w: u16) -> (r: Option<Instruction>)
    ensures
        r == decoded(w),
        r matches Some(ins) ==> ins.wf(),
{
    let op: u16 = w / 0x1000;
    let x: u8 = ((w / 0x100) % 16) as u8;
    let y: u8 = ((w / 0x10) % 16) as u8;
    let n: u8 = (w % 16) as u8;
    let nn: u8 = (w % 0x100) as u8;
    let nnn: u16 = w % 0x1000;
    match op {
        0x0 => {
            if w == 0x00E0 {
                Some(Instruction::ClearScreen)
            } else if w == 0x00EE {
                Some(Instruction::Return)
            } else {
                None
            }
        },
        0x1 => Some(Instruction::Jump { addr: nnn }),
        0x2 => Some(Instruction::Call { addr: nnn }),
        0x3 => Some(Instruction::SkipEqImm { x, nn }),
        0x4 => Some(Instruction::SkipNeImm { x, nn }),
        0x5 => Some(Instruction::SkipEqReg { x, y }),
        0x6 => Some(Instruction::LoadImm { x, nn }),
        0x7 => Some(Instruction::AddImm { x, nn }),
        0x8 => match n {
            0x0 => Some(Instruction::Move { x, y }),
            0x1 => Some(Instruction::Or { x, y }),
            0x2 => Some(Instruction::And { x, y }),
            0x3 => Some(Instruction::Xor { x, y }),
            0x4 => Some(Instruction::AddReg { x, y }),
            0x5 => Some(Instruction::SubReg { x, y }),
            0x6 => Some(Instruction::ShiftRight { x }),
            0x7 => Some(Instruction::SubRev { x, y }),
            0xE => Some(Instruction::ShiftLeft { x }),
            _ => None,
        },
        0x9 => Some(Instruction::SkipNeReg { x, y }),
        0xA => Some(Instruction::LoadIndex { addr: nnn }),
        0xB => Some(Instruction::JumpOffset { addr: nnn }),
        0xC => Some(Instruction::Random { x, nn }),
        0xD => Some(Instruction::Draw { x, y, n }),
        0xE => match nn {
            0x9E => Some(Instruction::SkipKeyPressed { x }),
            0xA1 => Some(Instruction::SkipKeyReleased { x }),
            _ => None,
        },
        _ => match nn {
            0x07 => Some(Instruction::LoadDelay { x }),
            0x0A => Some(Instruction::WaitKey { x }),
            0x15 => Some(Instruction::SetDelay { x }),
            0x18 => Some(Instruction::SetSound { x }),
            0x1E => Some(Instruction::AddIndex { x }),
            0x29 => Some(Instruction::FontGlyph { x }),
            0x33 => Some(Instruction::StoreBcd { x }),
            0x55 => Some(Instruction::StoreRegs { x }),
            0x65 => Some(Instruction::LoadRegs { x }),
            _ => None,
        },
    }
}

} // verus!

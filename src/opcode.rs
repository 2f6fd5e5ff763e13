use vstd::prelude::*;

verus! {

/// One decoded instruction word, with its operand fields.
///
/// Register operands are nibbles (`0..16`), addresses are twelve bits wide.
#[derive(Clone, Copy, Debug, PartialEq, Eq, Structural)]
pub enum Instruction {
    Cls,
    Ret,
    Jp(u16),
    Call(u16),
    SeByte(u8, u8),
    SneByte(u8, u8),
    SeReg(u8, u8),
    LdByte(u8, u8),
    AddByte(u8, u8),
    LdReg(u8, u8),
    Or(u8, u8),
    And(u8, u8),
    Xor(u8, u8),
    AddReg(u8, u8),
    SubReg(u8, u8),
    Shr(u8, u8),
    Subn(u8, u8),
    Shl(u8, u8),
    SneReg(u8, u8),
    LdI(u16),
    JpOffset(u16),
    Rnd(u8, u8),
    Drw(u8, u8, u8),
    Skp(u8),
    Sknp(u8),
    LdVxDt(u8),
    LdK(u8),
    LdDtVx(u8),
    LdStVx(u8),
    AddI(u8),
    LdF(u8),
    LdB(u8),
    LdS(u8),
    LdR(u8),
    Unknown(u16),
}

/// The word formed by a high byte and a low byte.
pub open spec fn word_of(upper: u8, lower: u8) -> u16 {
    (upper as int * 256 + lower as int) as u16
}

/// Highest nibble of a word.
pub open spec fn nib1(w: u16) -> u8 {
    (w / 4096) as u8
}

pub open spec fn nib2(w: u16) -> u8 {
    ((w / 256) % 16) as u8
}

pub open spec fn nib3(w: u16) -> u8 {
    ((w / 16) % 16) as u8
}

/// Lowest nibble of a word.
pub open spec fn nib4(w: u16) -> u8 {
    (w % 16) as u8
}

/// What a word means: the one classification shared by the interpreter and
/// the disassembler.
pub open spec fn decode_spec(w: u16) -> Instruction {
    let a = nib1(w);
    let x = nib2(w);
    let y = nib3(w);
    let n = nib4(w);
    let addr = (w % 4096) as u16;
    let byte = (w % 256) as u8;
    if a == 0 {
        if w == 0x00e0 {
            Instruction::Cls
        } else if w == 0x00ee {
            Instruction::Ret
        } else {
            Instruction::Unknown(w)
        }
    } else if a == 1 {
        Instruction::Jp(addr)
    } else if a == 2 {
        Instruction::Call(addr)
    } else if a == 3 {
        Instruction::SeByte(x, byte)
    } else if a == 4 {
        Instruction::SneByte(x, byte)
    } else if a == 5 {
        if n == 0 {
            Instruction::SeReg(x, y)
        } else {
            Instruction::Unknown(w)
        }
    } else if a == 6 {
        Instruction::LdByte(x, byte)
    } else if a == 7 {
        Instruction::AddByte(x, byte)
    } else if a == 8 {
        if n == 0 {
            Instruction::LdReg(x, y)
        } else if n == 1 {
            Instruction::Or(x, y)
        } else if n == 2 {
            Instruction::And(x, y)
        } else if n == 3 {
            Instruction::Xor(x, y)
        } else if n == 4 {
            Instruction::AddReg(x, y)
        } else if n == 5 {
            Instruction::SubReg(x, y)
        } else if n == 6 {
            Instruction::Shr(x, y)
        } else if n == 7 {
            Instruction::Subn(x, y)
        } else if n == 0xe {
            Instruction::Shl(x, y)
        } else {
            Instruction::Unknown(w)
        }
    } else if a == 9 {
        if n == 0 {
            Instruction::SneReg(x, y)
        } else {
            Instruction::Unknown(w)
        }
    } else if a == 0xa {
        Instruction::LdI(addr)
    } else if a == 0xb {
        Instruction::JpOffset(addr)
    } else if a == 0xc {
        Instruction::Rnd(x, byte)
    } else if a == 0xd {
        Instruction::Drw(x, y, n)
    } else if a == 0xe {
        if byte == 0x9e {
            Instruction::Skp(x)
        } else if byte == 0xa1 {
            Instruction::Sknp(x)
        } else {
            Instruction::Unknown(w)
        }
    } else {
        if byte == 0x07 {
            Instruction::LdVxDt(x)
        } else if byte == 0x0a {
            Instruction::LdK(x)
        } else if byte == 0x15 {
            Instruction::LdDtVx(x)
        } else if byte == 0x18 {
            Instruction::LdStVx(x)
        } else if byte == 0x1e {
            Instruction::AddI(x)
        } else if byte == 0x29 {
            Instruction::LdF(x)
        } else if byte == 0x33 {
            Instruction::LdB(x)
        } else if byte == 0x55 {
            Instruction::LdS(x)
        } else if byte == 0x65 {
            Instruction::LdR(x)
        } else {
            Instruction::Unknown(w)
        }
    }
}

/// Classifies the word made of `upper` (fetched first) and `lower`.
pub fn decode(upper: u8, lower: u8) -> (r: Instruction)
    ensures
        r == decode_spec(word_of(upper, lower)),
{
    let w: u16 = upper as u16 * 256 + lower as u16;
    let a: u16 = w / 4096;
    let x: u8 = ((w / 256) % 16) as u8;
    let y: u8 = ((w / 16) % 16) as u8;
    let n: u16 = w % 16;
    let addr: u16 = w % 4096;
    let byte: u8 = (w % 256) as u8;
    if a == 0 {
        if w == 0x00e0 {
            Instruction::Cls
        } else if w == 0x00ee {
            Instruction::Ret
        } else {
            Instruction::Unknown(w)
        }
    } else if a == 1 {
        Instruction::Jp(addr)
    } else if a == 2 {
        Instruction::Call(addr)
    } else if a == 3 {
        Instruction::SeByte(x, byte)
    } else if a == 4 {
        Instruction::SneByte(x, byte)
    } else if a == 5 {
        if n == 0 {
            Instruction::SeReg(x, y)
        } else {
            Instruction::Unknown(w)
        }
    } else if a == 6 {
        Instruction::LdByte(x, byte)
    } else if a == 7 {
        Instruction::AddByte(x, byte)
    } else if a == 8 {
        if n == 0 {
            Instruction::LdReg(x, y)
        } else if n == 1 {
            Instruction::Or(x, y)
        } else if n == 2 {
            Instruction::And(x, y)
        } else if n == 3 {
            Instruction::Xor(x, y)
        } else if n == 4 {
            Instruction::AddReg(x, y)
        } else if n == 5 {
            Instruction::SubReg(x, y)
        } else if n == 6 {
            Instruction::Shr(x, y)
        } else if n == 7 {
            Instruction::Subn(x, y)
        } else if n == 0xe {
            Instruction::Shl(x, y)
        } else {
            Instruction::Unknown(w)
        }
    } else if a == 9 {
        if n == 0 {
            Instruction::SneReg(x, y)
        } else {
            Instruction::Unknown(w)
        }
    } else if a == 0xa {
        Instruction::LdI(addr)
    } else if a == 0xb {
        Instruction::JpOffset(addr)
    } else if a == 0xc {
        Instruction::Rnd(x, byte)
    } else if a == 0xd {
        Instruction::Drw(x, y, n as u8)
    } else if a == 0xe {
        if byte == 0x9e {
            Instruction::Skp(x)
        } else if byte == 0xa1 {
            Instruction::Sknp(x)
        } else {
            Instruction::Unknown(w)
        }
    } else {
        if byte == 0x07 {
            Instruction::LdVxDt(x)
        } else if byte == 0x0a {
            Instruction::LdK(x)
        } else if byte == 0x15 {
            Instruction::LdDtVx(x)
        } else if byte == 0x18 {
            Instruction::LdStVx(x)
        } else if byte == 0x1e {
            Instruction::AddI(x)
        } else if byte == 0x29 {
            Instruction::LdF(x)
        } else if byte == 0x33 {
            Instruction::LdB(x)
        } else if byte == 0x55 {
            Instruction::LdS(x)
        } else if byte == 0x65 {
            Instruction::LdR(x)
        } else {
            Instruction::Unknown(w)
        }
    }
}

/// Classification is a function of the word: two results obtained for the
/// same word are the same instruction.
pub proof fn lemma_decode_deterministic(w: u16, r1: Instruction, r2: Instruction)
    requires
        r1 == decode_spec(w),
        r2 == decode_spec(w),
    ensures
        r1 == r2,
{
}

/// Every operand that decoding produces is in range: registers are nibbles
/// and addresses have twelve bits.
pub open spec fn operands_in_range(ins: Instruction) -> bool {
    match ins {
        Instruction::Jp(a) | Instruction::Call(a) | Instruction::LdI(a) | Instruction::JpOffset(a) => a < 4096,
        Instruction::SeByte(x, _) | Instruction::SneByte(x, _) | Instruction::LdByte(x, _)
        | Instruction::AddByte(x, _) | Instruction::Rnd(x, _) => x < 16,
        Instruction::SeReg(x, y) | Instruction::LdReg(x, y) | Instruction::Or(x, y)
        | Instruction::And(x, y) | Instruction::Xor(x, y) | Instruction::AddReg(x, y)
        | Instruction::SubReg(x, y) | Instruction::Shr(x, y) | Instruction::Subn(x, y)
        | Instruction::Shl(x, y) | Instruction::SneReg(x, y) => x < 16 && y < 16,
        Instruction::Drw(x, y, n) => x < 16 && y < 16 && n < 16,
        Instruction::Skp(x) | Instruction::Sknp(x) | Instruction::LdVxDt(x) | Instruction::LdK(x)
        | Instruction::LdDtVx(x) | Instruction::LdStVx(x) | Instruction::AddI(x)
        | Instruction::LdF(x) | Instruction::LdB(x) | Instruction::LdS(x)
        | Instruction::LdR(x) => x < 16,
        _ => true,
    }
}

pub proof fn lemma_decode_operands_in_range(w: u16)
    ensures
        operands_in_range(decode_spec(w)),
{
}

} // verus!

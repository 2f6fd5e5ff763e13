use vstd::prelude::*;
use vstd::string::*;

use crate::opcode::{decode, decode_spec, nib1, nib2, nib3, nib4, word_of, Instruction};

verus! {

/// Lower-case hexadecimal digit of a nibble.
pub open spec fn hex_lower(d: u8) -> Seq<char> {
    if d == 0 { "0"@ } else if d == 1 { "1"@ } else if d == 2 { "2"@ } else if d == 3 { "3"@ }
    else if d == 4 { "4"@ } else if d == 5 { "5"@ } else if d == 6 { "6"@ } else if d == 7 { "7"@ }
    else if d == 8 { "8"@ } else if d == 9 { "9"@ } else if d == 10 { "a"@ } else if d == 11 { "b"@ }
    else if d == 12 { "c"@ } else if d == 13 { "d"@ } else if d == 14 { "e"@ } else { "f"@ }
}

/// Upper-case hexadecimal digit of a nibble, as register names are written.
pub open spec fn hex_upper(d: u8) -> Seq<char> {
    if d < 10 { hex_lower(d) } else if d == 10 { "A"@ } else if d == 11 { "B"@ }
    else if d == 12 { "C"@ } else if d == 13 { "D"@ } else if d == 14 { "E"@ } else { "F"@ }
}

fn lower_digit(d: u8) -> (r: &'static str)
    requires
        d < 16,
    ensures
        r@ == hex_lower(d),
{
    if d == 0 { "0" } else if d == 1 { "1" } else if d == 2 { "2" } else if d == 3 { "3" }
    else if d == 4 { "4" } else if d == 5 { "5" } else if d == 6 { "6" } else if d == 7 { "7" }
    else if d == 8 { "8" } else if d == 9 { "9" } else if d == 10 { "a" } else if d == 11 { "b" }
    else if d == 12 { "c" } else if d == 13 { "d" } else if d == 14 { "e" } else { "f" }
}

fn upper_digit(d: u8) -> (r: &'static str)
    requires
        d < 16,
    ensures
        r@ == hex_upper(d),
{
    if d < 10 { lower_digit(d) } else if d == 10 { "A" } else if d == 11 { "B" }
    else if d == 12 { "C" } else if d == 13 { "D" } else if d == 14 { "E" } else { "F" }
}

pub open spec fn nibbles_ok(n1: u8, n2: u8, n3: u8, n4: u8) -> bool {
    n1 < 16 && n2 < 16 && n3 < 16 && n4 < 16
}

pub open spec fn nnnn_name(n1: u8) -> Seq<char> {
    if n1 == 1 { "JP  "@ } else if n1 == 2 { "CALL"@ } else if n1 == 0xa { "LD   I,  "@ }
    else if n1 == 0xb { "JP   V0, "@ } else { "Unrecognized"@ }
}

/// Text of an instruction with a twelve-bit address operand.
pub open spec fn nnnn_text(n1: u8, n2: u8, n3: u8, n4: u8) -> Seq<char> {
    nnnn_name(n1) + " 0x0"@ + hex_lower(n2) + hex_lower(n3) + hex_lower(n4)
}

pub open spec fn nxkk_name(n1: u8) -> Seq<char> {
    if n1 == 3 { "SE  "@ } else if n1 == 4 { "SNE "@ } else if n1 == 6 { "LD  "@ }
    else if n1 == 7 { "ADD "@ } else { "RND "@ }
}

/// Text of an instruction with a register and a byte operand.
pub open spec fn nxkk_text(n1: u8, n2: u8, n3: u8, n4: u8) -> Seq<char> {
    if n1 == 3 || n1 == 4 || n1 == 6 || n1 == 7 || n1 == 0xc {
        nxkk_name(n1) + " v"@ + hex_upper(n2) + ",  0x"@ + hex_lower(n3) + hex_lower(n4)
    } else {
        "Unrecognized"@
    }
}

/// Text of an instruction without operands.
pub open spec fn nnnn_fixed_text(n1: u8, n2: u8, n3: u8, n4: u8) -> Seq<char> {
    if n1 == 0 && n2 == 0 && n3 == 0xe && n4 == 0 {
        "CLS "@
    } else if n1 == 0 && n2 == 0 && n3 == 0xe && n4 == 0xe {
        "RET "@
    } else {
        "Unrecognized"@
    }
}

pub open spec fn nxyn_pair_name(n1: u8, n4: u8) -> Seq<char> {
    if n1 == 5 && n4 == 0 { "SE  "@ }
    else if n1 == 8 && n4 == 0 { "LD  "@ }
    else if n1 == 8 && n4 == 1 { "OR  "@ }
    else if n1 == 8 && n4 == 2 { "AND "@ }
    else if n1 == 8 && n4 == 3 { "XOR "@ }
    else if n1 == 8 && n4 == 4 { "ADD "@ }
    else if n1 == 8 && n4 == 5 { "SUB "@ }
    else if n1 == 8 && n4 == 6 { "SHR "@ }
    else if n1 == 8 && n4 == 7 { "SUBN"@ }
    else if n1 == 8 && n4 == 0xe { "SHL "@ }
    else if n1 == 9 && n4 == 0 { "SNE "@ }
    else { "Unrecognized"@ }
}

/// Text of an instruction with two register operands.
pub open spec fn nxyn_pair_text(n1: u8, n2: u8, n3: u8, n4: u8) -> Seq<char> {
    nxyn_pair_name(n1, n4) + " v"@ + hex_upper(n2) + ",  v"@ + hex_upper(n3)
}

/// Text of a sprite draw: two registers and a row count.
pub open spec fn draw_text(n1: u8, n2: u8, n3: u8, n4: u8) -> Seq<char> {
    (if n1 == 0xd { "DRW "@ } else { "Unrecognized"@ }) + " v"@ + hex_upper(n2) + ",  v"@
        + hex_upper(n3) + ", 0x"@ + hex_lower(n4)
}

/// Text of an instruction with one register operand.
pub open spec fn single_reg_text(n1: u8, n2: u8, n3: u8, n4: u8) -> Seq<char> {
    let r = hex_upper(n2);
    if n1 == 0xe && n3 == 9 && n4 == 0xe { "SKP  v"@ + r }
    else if n1 == 0xe && n3 == 0xa && n4 == 1 { "SKNP v"@ + r }
    else if n1 == 0xf && n3 == 0 && n4 == 7 { "LD   v"@ + r + ",  DT"@ }
    else if n1 == 0xf && n3 == 0 && n4 == 0xa { "LD   v"@ + r + ",  K"@ }
    else if n1 == 0xf && n3 == 1 && n4 == 5 { "LD   DT,  v"@ + r }
    else if n1 == 0xf && n3 == 1 && n4 == 8 { "LD   ST,  v"@ + r }
    else if n1 == 0xf && n3 == 1 && n4 == 0xe { "ADD  I,   v"@ + r }
    else if n1 == 0xf && n3 == 2 && n4 == 9 { "LD   F,   v"@ + r }
    else if n1 == 0xf && n3 == 3 && n4 == 3 { "LD   B,   v"@ + r }
    else if n1 == 0xf && n3 == 5 && n4 == 5 { "LD   [I], v"@ + r }
    else if n1 == 0xf && n3 == 6 && n4 == 5 { "LD   v"@ + r + ",  [I]"@ }
    else { "Unrecognized"@ }
}

/// A word that is no instruction is shown as its raw value.
pub open spec fn raw_word_text(w: u16) -> Seq<char> {
    "0x"@ + hex_lower(nib1(w)) + hex_lower(nib2(w)) + hex_lower(nib3(w)) + hex_lower(nib4(w))
}

/// The mnemonic of a word, chosen by its decoded instruction.
pub open spec fn mnemonic(w: u16) -> Seq<char> {
    let (a, x, y, n) = (nib1(w), nib2(w), nib3(w), nib4(w));
    match decode_spec(w) {
        Instruction::Cls | Instruction::Ret => nnnn_fixed_text(a, x, y, n),
        Instruction::Jp(_) | Instruction::Call(_) | Instruction::LdI(_)
        | Instruction::JpOffset(_) => nnnn_text(a, x, y, n),
        Instruction::SeByte(_, _) | Instruction::SneByte(_, _) | Instruction::LdByte(_, _)
        | Instruction::AddByte(_, _) | Instruction::Rnd(_, _) => nxkk_text(a, x, y, n),
        Instruction::SeReg(_, _) | Instruction::LdReg(_, _) | Instruction::Or(_, _)
        | Instruction::And(_, _) | Instruction::Xor(_, _) | Instruction::AddReg(_, _)
        | Instruction::SubReg(_, _) | Instruction::Shr(_, _) | Instruction::Subn(_, _)
        | Instruction::Shl(_, _) | Instruction::SneReg(_, _) => nxyn_pair_text(a, x, y, n),
        Instruction::Drw(_, _, _) => draw_text(a, x, y, n),
        Instruction::Unknown(_) => raw_word_text(w),
        _ => single_reg_text(a, x, y, n),
    }
}

/// Renders the word made of `upper` and `lower` as assembly text.
pub fn decompile_word(upper: u8, lower: u8) -> (r: String)
    ensures
        r@ == mnemonic(word_of(upper, lower)),
{
    let w: u16 = upper as u16 * 256 + lower as u16;
    let n1: u8 = (w / 4096) as u8;
    let n2: u8 = ((w / 256) % 16) as u8;
    let n3: u8 = ((w / 16) % 16) as u8;
    let n4: u8 = (w % 16) as u8;
    match decode(upper, lower) {
        Instruction::Cls | Instruction::Ret => decompile_NNNN(n1, n2, n3, n4),
        Instruction::Jp(_) | Instruction::Call(_) | Instruction::LdI(_)
        | Instruction::JpOffset(_) => decompile_Nnnn(n1, n2, n3, n4),
        Instruction::SeByte(_, _) | Instruction::SneByte(_, _) | Instruction::LdByte(_, _)
        | Instruction::AddByte(_, _) | Instruction::Rnd(_, _) => decompile_Nxkk(n1, n2, n3, n4),
        Instruction::SeReg(_, _) | Instruction::LdReg(_, _) | Instruction::Or(_, _)
        | Instruction::And(_, _) | Instruction::Xor(_, _) | Instruction::AddReg(_, _)
        | Instruction::SubReg(_, _) | Instruction::Shr(_, _) | Instruction::Subn(_, _)
        | Instruction::Shl(_, _) | Instruction::SneReg(_, _) => decompile_NxyN(n1, n2, n3, n4),
        Instruction::Drw(_, _, _) => decompile_Nxyn(n1, n2, n3, n4),
        Instruction::Unknown(_) => {
            let mut s = String::from_str("0x");
            s.append(lower_digit(n1));
            s.append(lower_digit(n2));
            s.append(lower_digit(n3));
            s.append(lower_digit(n4));
            s
        },
        _ => decompile_NxNN(n1, n2, n3, n4),
    }
}

/// Renders an instruction whose operand is the address `n2 n3 n4`.
#[allow(non_snake_case)]
pub fn decompile_Nnnn(n1: u8, n2: u8, n3: u8, n4: u8) -> (r: String)
    requires
        nibbles_ok(n1, n2, n3, n4),
    ensures
        r@ == nnnn_text(n1, n2, n3, n4),
{
    let name = if n1 == 1 { "JP  " } else if n1 == 2 { "CALL" } else if n1 == 0xa { "LD   I,  " }
        else if n1 == 0xb { "JP   V0, " } else { "Unrecognized" };
    let mut s = String::from_str(name);
    s.append(" 0x0");
    s.append(lower_digit(n2));
    s.append(lower_digit(n3));
    s.append(lower_digit(n4));
    s
}

/// Renders an instruction with register `n2` and byte `n3 n4`.
#[allow(non_snake_case)]
pub fn decompile_Nxkk(n1: u8, n2: u8, n3: u8, n4: u8) -> (r: String)
    requires
        nibbles_ok(n1, n2, n3, n4),
    ensures
        r@ == nxkk_text(n1, n2, n3, n4),
{
    if n1 == 3 || n1 == 4 || n1 == 6 || n1 == 7 || n1 == 0xc {
        let name = if n1 == 3 { "SE  " } else if n1 == 4 { "SNE " } else if n1 == 6 { "LD  " }
            else if n1 == 7 { "ADD " } else { "RND " };
        let mut s = String::from_str(name);
        s.append(" v");
        s.append(upper_digit(n2));
        s.append(",  0x");
        s.append(lower_digit(n3));
        s.append(lower_digit(n4));
        s
    } else {
        String::from_str("Unrecognized")
    }
}

/// Renders an instruction without operands.
#[allow(non_snake_case)]
pub fn decompile_NNNN(n1: u8, n2: u8, n3: u8, n4: u8) -> (r: String)
    ensures
        r@ == nnnn_fixed_text(n1, n2, n3, n4),
{
    if n1 == 0 && n2 == 0 && n3 == 0xe && n4 == 0 {
        String::from_str("CLS ")
    } else if n1 == 0 && n2 == 0 && n3 == 0xe && n4 == 0xe {
        String::from_str("RET ")
    } else {
        String::from_str("Unrecognized")
    }
}

/// Renders an instruction on registers `n2` and `n3`, chosen by `n1` and `n4`.
#[allow(non_snake_case)]
pub fn decompile_NxyN(n1: u8, n2: u8, n3: u8, n4: u8) -> (r: String)
    requires
        nibbles_ok(n1, n2, n3, n4),
    ensures
        r@ == nxyn_pair_text(n1, n2, n3, n4),
{
    let name = if n1 == 5 && n4 == 0 { "SE  " }
        else if n1 == 8 && n4 == 0 { "LD  " }
        else if n1 == 8 && n4 == 1 { "OR  " }
        else if n1 == 8 && n4 == 2 { "AND " }
        else if n1 == 8 && n4 == 3 { "XOR " }
        else if n1 == 8 && n4 == 4 { "ADD " }
        else if n1 == 8 && n4 == 5 { "SUB " }
        else if n1 == 8 && n4 == 6 { "SHR " }
        else if n1 == 8 && n4 == 7 { "SUBN" }
        else if n1 == 8 && n4 == 0xe { "SHL " }
        else if n1 == 9 && n4 == 0 { "SNE " }
        else { "Unrecognized" };
    let mut s = String::from_str(name);
    s.append(" v");
    s.append(upper_digit(n2));
    s.append(",  v");
    s.append(upper_digit(n3));
    s
}

/// Renders a sprite draw on registers `n2`, `n3` with `n4` rows.
#[allow(non_snake_case)]
pub fn decompile_Nxyn(n1: u8, n2: u8, n3: u8, n4: u8) -> (r: String)
    requires
        nibbles_ok(n1, n2, n3, n4),
    ensures
        r@ == draw_text(n1, n2, n3, n4),
{
    let mut s = String::from_str(if n1 == 0xd { "DRW " } else { "Unrecognized" });
    s.append(" v");
    s.append(upper_digit(n2));
    s.append(",  v");
    s.append(upper_digit(n3));
    s.append(", 0x");
    s.append(lower_digit(n4));
    s
}

/// Renders an instruction on the single register `n2`, chosen by `n1`, `n3`, `n4`.
#[allow(non_snake_case)]
pub fn decompile_NxNN(n1: u8, n2: u8, n3: u8, n4: u8) -> (r: String)
    requires
        nibbles_ok(n1, n2, n3, n4),
    ensures
        r@ == single_reg_text(n1, n2, n3, n4),
{
    let reg = upper_digit(n2);
    if n1 == 0xe && n3 == 9 && n4 == 0xe {
        let mut s = String::from_str("SKP  v");
        s.append(reg);
        s
    } else if n1 == 0xe && n3 == 0xa && n4 == 1 {
        let mut s = String::from_str("SKNP v");
        s.append(reg);
        s
    } else if n1 == 0xf && n3 == 0 && n4 == 7 {
        let mut s = String::from_str("LD   v");
        s.append(reg);
        s.append(",  DT");
        s
    } else if n1 == 0xf && n3 == 0 && n4 == 0xa {
        let mut s = String::from_str("LD   v");
        s.append(reg);
        s.append(",  K");
        s
    } else if n1 == 0xf && n3 == 1 && n4 == 5 {
        let mut s = String::from_str("LD   DT,  v");
        s.append(reg);
        s
    } else if n1 == 0xf && n3 == 1 && n4 == 8 {
        let mut s = String::from_str("LD   ST,  v");
        s.append(reg);
        s
    } else if n1 == 0xf && n3 == 1 && n4 == 0xe {
        let mut s = String::from_str("ADD  I,   v");
        s.append(reg);
        s
    } else if n1 == 0xf && n3 == 2 && n4 == 9 {
        let mut s = String::from_str("LD   F,   v");
        s.append(reg);
        s
    } else if n1 == 0xf && n3 == 3 && n4 == 3 {
        let mut s = String::from_str("LD   B,   v");
        s.append(reg);
        s
    } else if n1 == 0xf && n3 == 5 && n4 == 5 {
        let mut s = String::from_str("LD   [I], v");
        s.append(reg);
        s
    } else if n1 == 0xf && n3 == 6 && n4 == 5 {
        let mut s = String::from_str("LD   v");
        s.append(reg);
        s.append(",  [I]");
        s
    } else {
        String::from_str("Unrecognized")
    }
}

/// The word at position `k` of a program image.
pub open spec fn image_word(rom: Seq<u8>, k: int) -> u16 {
    word_of(rom[2 * k], rom[2 * k + 1])
}

/// The listing of the first `k` words of an image, one line per word.
pub open spec fn listing(rom: Seq<u8>, k: nat) -> Seq<char>
    decreases k,
{
    if k == 0 {
        Seq::empty()
    } else if k == 1 {
        mnemonic(image_word(rom, 0))
    } else {
        listing(rom, (k - 1) as nat) + "\n"@ + mnemonic(image_word(rom, k - 1))
    }
}

/// Renders a program image word by word, in address order, into one line
/// of text per complete two-byte word.
pub fn decompile_rom(rom: &Vec<u8>) -> (r: String)
    ensures
        r@ == listing(rom@, (rom@.len() / 2) as nat),
{
    let len: usize = rom.len();
    let words: usize = len / 2;
    let mut out = String::new();
    let mut k: usize = 0;
    let mut pos: usize = 0;
    while k < words
        invariant
            words == rom@.len() / 2,
            len == rom@.len(),
            2 * words <= len,
            k <= words,
            pos == 2 * k,
            out@ == listing(rom@, k as nat),
        decreases words - k,
    {
        if k > 0 {
            out.append("\n");
        }
        let line = decompile_word(rom[pos], rom[pos + 1]);
        out.append(line.as_str());
        k = k + 1;
        pos = pos + 2;
    }
    out
}

/// Whether a line is the raw rendering of a word that is no instruction.
pub open spec fn is_raw_text(s: Seq<char>) -> bool {
    s.len() > 0 && s[0] == '0'
}

/// Whether a line starts with a letter rather than a digit.
pub open spec fn starts_named(s: Seq<char>) -> bool {
    s.len() > 0 && s[0] != '0'
}

proof fn lemma_prefix_named(a: Seq<char>, b: Seq<char>)
    requires
        starts_named(a),
    ensures
        starts_named(a + b),
{
    assert((a + b)[0] == a[0]);
}

proof fn lemma_unrecognized_named()
    ensures
        starts_named("Unrecognized"@),
{
    reveal_strlit("Unrecognized");
}

proof fn lemma_nnnn_named(n1: u8, n2: u8, n3: u8, n4: u8)
    ensures
        starts_named(nnnn_text(n1, n2, n3, n4)),
{
    reveal_strlit("JP  ");
    reveal_strlit("CALL");
    reveal_strlit("LD   I,  ");
    reveal_strlit("JP   V0, ");
    lemma_unrecognized_named();
    let name = nnnn_name(n1);
    lemma_prefix_named(name, " 0x0"@);
    lemma_prefix_named(name + " 0x0"@, hex_lower(n2));
    lemma_prefix_named(name + " 0x0"@ + hex_lower(n2), hex_lower(n3));
    lemma_prefix_named(name + " 0x0"@ + hex_lower(n2) + hex_lower(n3), hex_lower(n4));
}

proof fn lemma_fixed_named(n1: u8, n2: u8, n3: u8, n4: u8)
    ensures
        starts_named(nnnn_fixed_text(n1, n2, n3, n4)),
{
    reveal_strlit("CLS ");
    reveal_strlit("RET ");
    lemma_unrecognized_named();
}

proof fn lemma_nxkk_named(n1: u8, n2: u8, n3: u8, n4: u8)
    ensures
        starts_named(nxkk_text(n1, n2, n3, n4)),
{
    reveal_strlit("SE  ");
    reveal_strlit("SNE ");
    reveal_strlit("LD  ");
    reveal_strlit("ADD ");
    reveal_strlit("RND ");
    lemma_unrecognized_named();
    let name = nxkk_name(n1);
    lemma_prefix_named(name, " v"@);
    lemma_prefix_named(name + " v"@, hex_upper(n2));
    lemma_prefix_named(name + " v"@ + hex_upper(n2), ",  0x"@);
    lemma_prefix_named(name + " v"@ + hex_upper(n2) + ",  0x"@, hex_lower(n3));
    lemma_prefix_named(name + " v"@ + hex_upper(n2) + ",  0x"@ + hex_lower(n3), hex_lower(n4));
}

proof fn lemma_pair_named(n1: u8, n2: u8, n3: u8, n4: u8)
    ensures
        starts_named(nxyn_pair_text(n1, n2, n3, n4)),
{
    reveal_strlit("SE  ");
    reveal_strlit("LD  ");
    reveal_strlit("OR  ");
    reveal_strlit("AND ");
    reveal_strlit("XOR ");
    reveal_strlit("ADD ");
    reveal_strlit("SUB ");
    reveal_strlit("SHR ");
    reveal_strlit("SUBN");
    reveal_strlit("SHL ");
    reveal_strlit("SNE ");
    lemma_unrecognized_named();
    let name = nxyn_pair_name(n1, n4);
    lemma_prefix_named(name, " v"@);
    lemma_prefix_named(name + " v"@, hex_upper(n2));
    lemma_prefix_named(name + " v"@ + hex_upper(n2), ",  v"@);
    lemma_prefix_named(name + " v"@ + hex_upper(n2) + ",  v"@, hex_upper(n3));
}

proof fn lemma_draw_named(n1: u8, n2: u8, n3: u8, n4: u8)
    ensures
        starts_named(draw_text(n1, n2, n3, n4)),
{
    reveal_strlit("DRW ");
    lemma_unrecognized_named();
    let name = if n1 == 0xd { "DRW "@ } else { "Unrecognized"@ };
    let t1 = name + " v"@;
    let t2 = t1 + hex_upper(n2);
    let t3 = t2 + ",  v"@;
    let t4 = t3 + hex_upper(n3);
    let t5 = t4 + ", 0x"@;
    lemma_prefix_named(name, " v"@);
    lemma_prefix_named(t1, hex_upper(n2));
    lemma_prefix_named(t2, ",  v"@);
    lemma_prefix_named(t3, hex_upper(n3));
    lemma_prefix_named(t4, ", 0x"@);
    lemma_prefix_named(t5, hex_lower(n4));
}

proof fn lemma_single_reg_named(n1: u8, n2: u8, n3: u8, n4: u8)
    ensures
        starts_named(single_reg_text(n1, n2, n3, n4)),
{
    reveal_strlit("SKP  v");
    reveal_strlit("SKNP v");
    reveal_strlit("LD   v");
    reveal_strlit("LD   DT,  v");
    reveal_strlit("LD   ST,  v");
    reveal_strlit("ADD  I,   v");
    reveal_strlit("LD   F,   v");
    reveal_strlit("LD   B,   v");
    reveal_strlit("LD   [I], v");
    lemma_unrecognized_named();
    let r = hex_upper(n2);
    lemma_prefix_named("SKP  v"@, r);
    lemma_prefix_named("SKNP v"@, r);
    lemma_prefix_named("LD   v"@, r);
    lemma_prefix_named("LD   v"@ + r, ",  DT"@);
    lemma_prefix_named("LD   v"@ + r, ",  K"@);
    lemma_prefix_named("LD   v"@ + r, ",  [I]"@);
    lemma_prefix_named("LD   DT,  v"@, r);
    lemma_prefix_named("LD   ST,  v"@, r);
    lemma_prefix_named("ADD  I,   v"@, r);
    lemma_prefix_named("LD   F,   v"@, r);
    lemma_prefix_named("LD   B,   v"@, r);
    lemma_prefix_named("LD   [I], v"@, r);
}

/// The disassembler and the interpreter agree on what is an instruction: a
/// word gets a mnemonic exactly when it decodes to an executable instruction,
/// and is shown raw exactly when it decodes to nothing.
pub proof fn lemma_mnemonic_iff_executable(w: u16)
    ensures
        mnemonic(w).len() > 0,
        (decode_spec(w) is Unknown) <==> is_raw_text(mnemonic(w)),
{
    let (a, x, y, n) = (nib1(w), nib2(w), nib3(w), nib4(w));
    match decode_spec(w) {
        Instruction::Cls | Instruction::Ret => lemma_fixed_named(a, x, y, n),
        Instruction::Jp(_) | Instruction::Call(_) | Instruction::LdI(_)
        | Instruction::JpOffset(_) => lemma_nnnn_named(a, x, y, n),
        Instruction::SeByte(_, _) | Instruction::SneByte(_, _) | Instruction::LdByte(_, _)
        | Instruction::AddByte(_, _) | Instruction::Rnd(_, _) => lemma_nxkk_named(a, x, y, n),
        Instruction::SeReg(_, _) | Instruction::LdReg(_, _) | Instruction::Or(_, _)
        | Instruction::And(_, _) | Instruction::Xor(_, _) | Instruction::AddReg(_, _)
        | Instruction::SubReg(_, _) | Instruction::Shr(_, _) | Instruction::Subn(_, _)
        | Instruction::Shl(_, _) | Instruction::SneReg(_, _) => lemma_pair_named(a, x, y, n),
        Instruction::Drw(_, _, _) => lemma_draw_named(a, x, y, n),
        Instruction::Unknown(_) => {
            reveal_strlit("0x");
            let t = "0x"@ + hex_lower(a);
            assert(t[0] == '0');
            assert((t + hex_lower(x))[0] == '0');
            assert((t + hex_lower(x) + hex_lower(y))[0] == '0');
            assert((t + hex_lower(x) + hex_lower(y) + hex_lower(n))[0] == '0');
        },
        _ => lemma_single_reg_named(a, x, y, n),
    }
}

} // verus!

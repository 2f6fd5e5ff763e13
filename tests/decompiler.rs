use chip8::decompiler::{
    decompile_NNNN, decompile_Nnnn, decompile_NxNN, decompile_NxyN, decompile_Nxkk, decompile_Nxyn,
    decompile_rom, decompile_word,
};
use chip8::opcode::{decode, Instruction};

#[allow(non_snake_case)]
#[test]
fn test_decompile_Nnnn() {
    assert_eq!(decompile_Nnnn(0x1, 0x2, 0x3, 0x4), "JP   0x0234".to_owned());
    assert_eq!(decompile_Nnnn(0x2, 0x2, 0x3, 0x4), "CALL 0x0234".to_owned());
    assert_eq!(decompile_Nnnn(0xa, 0x2, 0x3, 0x4), "LD   I,   0x0234".to_owned());
    assert_eq!(decompile_Nnnn(0xb, 0x2, 0x3, 0x4), "JP   V0,  0x0234".to_owned());
}

#[allow(non_snake_case)]
#[test]
fn test_decompile_Nxkk() {
    assert_eq!(decompile_Nxkk(0x3, 0x4, 0x5, 0x6), "SE   v4,  0x56");
    assert_eq!(decompile_Nxkk(0x4, 0x4, 0x5, 0x6), "SNE  v4,  0x56");
    assert_eq!(decompile_Nxkk(0x6, 0x4, 0x5, 0x6), "LD   v4,  0x56");
    assert_eq!(decompile_Nxkk(0x7, 0x4, 0x5, 0x6), "ADD  v4,  0x56");
    assert_eq!(decompile_Nxkk(0xC, 0x4, 0x5, 0x6), "RND  v4,  0x56");
    assert_eq!(decompile_Nxkk(0xA, 0x4, 0x5, 0x6), "Unrecognized");
}

#[allow(non_snake_case)]
#[test]
fn test_decompile_NNNN() {}

#[allow(non_snake_case)]
#[test]
fn test_decompile_NxyN() {}

#[allow(non_snake_case)]
#[test]
fn test_decompile_Nxyn() {}

#[allow(non_snake_case)]
#[test]
fn test_decompile_NxNN() {
    assert_eq!(decompile_NxNN(0xE, 0x2, 0x9, 0xE), "SKP  v2".to_owned());
    assert_eq!(decompile_NxNN(0xE, 0xA, 0xA, 0x1), "SKNP vA".to_owned());
    assert_eq!(decompile_NxNN(0xF, 0x8, 0x0, 0x7), "LD   v8,  DT".to_owned());
    assert_eq!(decompile_NxNN(0xF, 0x7, 0x0, 0xA), "LD   v7,  K".to_owned());
    assert_eq!(decompile_NxNN(0xF, 0x0, 0x1, 0x5), "LD   DT,  v0".to_owned());
    assert_eq!(decompile_NxNN(0xF, 0x4, 0x1, 0x8), "LD   ST,  v4".to_owned());
    assert_eq!(decompile_NxNN(0xF, 0x2, 0x1, 0xE), "ADD  I,   v2".to_owned());
    assert_eq!(decompile_NxNN(0xF, 0x2, 0x2, 0x9), "LD   F,   v2".to_owned());
    assert_eq!(decompile_NxNN(0xF, 0x2, 0x3, 0x3), "LD   B,   v2".to_owned());
    assert_eq!(decompile_NxNN(0xF, 0x2, 0x5, 0x5), "LD   [I], v2".to_owned());
    assert_eq!(decompile_NxNN(0xF, 0x2, 0x6, 0x5), "LD   v2,  [I]".to_owned());
}

#[test]
fn fixed_and_pair_texts() {
    assert_eq!(decompile_NNNN(0x0, 0x0, 0xe, 0x0), "CLS ");
    assert_eq!(decompile_NNNN(0x0, 0x0, 0xe, 0xe), "RET ");
    assert_eq!(decompile_NNNN(0x0, 0x1, 0xe, 0xe), "Unrecognized");
    assert_eq!(decompile_NxyN(0x8, 0x1, 0xB, 0x4), "ADD  v1,  vB");
    assert_eq!(decompile_NxyN(0x8, 0x1, 0x2, 0x7), "SUBN v1,  v2");
    assert_eq!(decompile_NxyN(0x8, 0x1, 0x2, 0x9), "Unrecognized v1,  v2");
    assert_eq!(decompile_Nxyn(0xD, 0x1, 0x2, 0xF), "DRW  v1,  v2, 0xf");
    assert_eq!(decompile_Nnnn(0x5, 0x2, 0x3, 0x4), "Unrecognized 0x0234");
}

#[test]
fn word_texts() {
    assert_eq!(decompile_word(0x00, 0xe0), "CLS ");
    assert_eq!(decompile_word(0x2a, 0xbc), "CALL 0x0abc");
    assert_eq!(decompile_word(0xc3, 0xff), "RND  v3,  0xff");
    assert_eq!(decompile_word(0x8a, 0x5e), "SHL  vA,  v5");
    assert_eq!(decompile_word(0xd1, 0x25), "DRW  v1,  v2, 0x5");
    assert_eq!(decompile_word(0xf9, 0x65), "LD   v9,  [I]");
    assert_eq!(decompile_word(0x50, 0x01), "0x5001");
    assert_eq!(decompile_word(0xfa, 0xbc), "0xfabc");
    assert_eq!(decompile_word(0x01, 0x23), "0x0123");
}

#[test]
fn rom_listing_one_line_per_word() {
    assert_eq!(decompile_rom(&vec![0x00, 0xe0, 0x12, 0x34, 0x81, 0x24]), "CLS \nJP   0x0234\nADD  v1,  v2");
    assert_eq!(decompile_rom(&vec![0x00, 0xee, 0x7f]), "RET ");
    assert_eq!(decompile_rom(&vec![]), "");
}

#[test]
fn classification_is_repeatable_for_every_word() {
    for w in 0..=0xffffu32 {
        let (upper, lower) = ((w >> 8) as u8, (w & 0xff) as u8);
        assert_eq!(decode(upper, lower), decode(upper, lower));
        assert_eq!(decompile_word(upper, lower), decompile_word(upper, lower));
    }
}

#[test]
fn mnemonic_exactly_for_executable_words() {
    let mut known = 0u32;
    for w in 0..=0xffffu32 {
        let (upper, lower) = ((w >> 8) as u8, (w & 0xff) as u8);
        let text = decompile_word(upper, lower);
        let unknown = matches!(decode(upper, lower), Instruction::Unknown(_));
        assert_eq!(unknown, text.starts_with("0x"), "word {:#06x}", w);
        assert!(!text.starts_with("Unrecognized"));
        if !unknown {
            known += 1;
        }
    }
    // 2 fixed, 4 address families, 5 byte families, 11 pair forms, draw, 2 key skips, 9 F-forms
    assert_eq!(known, 2 + 4 * 4096 + 5 * 4096 + 11 * 256 + 4096 + 2 * 16 + 9 * 16);
}

#[test]
fn decode_operands() {
    assert_eq!(decode(0x1a, 0xbc), Instruction::Jp(0xabc));
    assert_eq!(decode(0x83, 0x46), Instruction::Shr(3, 4));
    assert_eq!(decode(0xd1, 0x2f), Instruction::Drw(1, 2, 15));
    assert_eq!(decode(0xf4, 0x1e), Instruction::AddI(4));
    assert_eq!(decode(0x00, 0xe1), Instruction::Unknown(0x00e1));
}

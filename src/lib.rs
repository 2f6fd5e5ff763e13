// An interpreter for the CHIP-8 instruction set and a disassembler for it.
//
// `opcode` classifies instruction words, `decompiler` renders them as text,
// `machine` states what executing them means, and `emulator` executes them.

pub mod decompiler;
pub mod emulator;
pub mod machine;
pub mod opcode;

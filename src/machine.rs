use vstd::prelude::*;

use crate::opcode::{decode_spec, word_of, Instruction};

verus! {

/// Number of bytes of memory.
pub const RAM_SIZE: usize = 4096;

/// Address at which a program image is loaded and execution starts.
pub const PROGRAM_START: u16 = 0x200;

/// Largest program image that fits between the start address and the end of memory.
pub const MAX_IMAGE: usize = 0xe00;

/// Width of the display in pixels.
pub const DISPLAY_W: usize = 64;

/// Height of the display in pixels.
pub const DISPLAY_H: usize = 32;

/// Capacity of the call stack.
pub const STACK_DEPTH: usize = 16;

/// Index of the flag register.
pub const FLAG: usize = 15;

/// A violation of stack discipline, after which the machine stops.
#[derive(Clone, Copy, Debug, PartialEq, Eq, Structural)]
pub enum Fault {
    StackOverflow,
    StackUnderflow,
}

/// Why a program image was refused.
#[derive(Clone, Copy, Debug, PartialEq, Eq, Structural)]
pub enum LoadError {
    ImageTooLarge,
}

/// What one step of the interpreter reports.
#[derive(Clone, Copy, Debug, PartialEq, Eq, Structural)]
pub enum StepStatus {
    Normal,
    DrawReady,
    AwaitingInput,
    UnknownOpcode(u16),
    Faulted(Fault),
}

/// The state of the machine, as the contracts see it.
pub struct Machine {
    pub v: Seq<u8>,
    pub i: u16,
    pub pc: u16,
    pub dt: u8,
    pub st: u8,
    pub stack: Seq<u16>,
    pub ram: Seq<u8>,
    pub vram: Seq<u64>,
    pub keyboard: u16,
    pub draw: bool,
    pub input: bool,
    pub fault: Option<Fault>,
    pub steps_per_tick: u32,
}

/// Number of bytes of the built-in hexadecimal font.
pub const FONT_SIZE: usize = 80;

/// The built-in font: five rows of four pixels for each of the digits 0 to F.
pub open spec fn font_spec() -> Seq<u8> {
    seq![
        0xF0, 0x90, 0x90, 0x90, 0xF0, 0x20, 0x60, 0x20, 0x20, 0x70,
        0xF0, 0x10, 0xF0, 0x80, 0xF0, 0xF0, 0x10, 0xF0, 0x10, 0xF0,
        0x90, 0x90, 0xF0, 0x10, 0x10, 0xF0, 0x80, 0xF0, 0x10, 0xF0,
        0xF0, 0x80, 0xF0, 0x90, 0xF0, 0xF0, 0x10, 0x20, 0x40, 0x40,
        0xF0, 0x90, 0xF0, 0x90, 0xF0, 0xF0, 0x90, 0xF0, 0x10, 0xF0,
        0xF0, 0x90, 0xF0, 0x90, 0x90, 0xE0, 0x90, 0xE0, 0x90, 0xE0,
        0xF0, 0x80, 0x80, 0x80, 0xF0, 0xE0, 0x90, 0x90, 0x90, 0xE0,
        0xF0, 0x80, 0xF0, 0x80, 0xF0, 0xF0, 0x80, 0xF0, 0x80, 0x80,
    ]
}

/// The built-in font, to be passed to `Chip8::new`.
pub fn font() -> (r: Vec<u8>)
    ensures
        r@ == font_spec(),
        r@.len() == FONT_SIZE,
{
    let r = vec![
        0xF0, 0x90, 0x90, 0x90, 0xF0, 0x20, 0x60, 0x20, 0x20, 0x70,
        0xF0, 0x10, 0xF0, 0x80, 0xF0, 0xF0, 0x10, 0xF0, 0x10, 0xF0,
        0x90, 0x90, 0xF0, 0x10, 0x10, 0xF0, 0x80, 0xF0, 0x10, 0xF0,
        0xF0, 0x80, 0xF0, 0x90, 0xF0, 0xF0, 0x10, 0x20, 0x40, 0x40,
        0xF0, 0x90, 0xF0, 0x90, 0xF0, 0xF0, 0x90, 0xF0, 0x10, 0xF0,
        0xF0, 0x90, 0xF0, 0x90, 0x90, 0xE0, 0x90, 0xE0, 0x90, 0xE0,
        0xF0, 0x80, 0x80, 0x80, 0xF0, 0xE0, 0x90, 0x90, 0x90, 0xE0,
        0xF0, 0x80, 0xF0, 0x80, 0xF0, 0xF0, 0x80, 0xF0, 0x80, 0x80,
    ];
    assert(r@ =~= font_spec());
    r
}

/// The machine as constructed: font at address 0, program at the start
/// address, everything else zero, the stack empty and no signal raised.
pub open spec fn initial_machine(font: Seq<u8>, rom: Seq<u8>, steps_per_tick: u32) -> Machine {
    Machine {
        v: Seq::new(16, |k: int| 0u8),
        i: 0,
        pc: PROGRAM_START,
        dt: 0,
        st: 0,
        stack: Seq::empty(),
        ram: Seq::new(
            RAM_SIZE as nat,
            |k: int|
                if k < FONT_SIZE {
                    font[k]
                } else if PROGRAM_START <= k < PROGRAM_START + rom.len() {
                    rom[k - PROGRAM_START]
                } else {
                    0u8
                },
        ),
        vram: Seq::new(32, |r: int| 0u64),
        keyboard: 0,
        draw: false,
        input: false,
        fault: None,
        steps_per_tick,
    }
}

/// Whether pixel (`x`, `y`) is set in a display of bit rows.
pub open spec fn pixel(vram: Seq<u64>, x: int, y: int) -> bool {
    (vram[y] >> (x as u64)) & 1 == 1
}

/// Sizes are fixed, the program counter and every return address are memory
/// addresses, and the stack holds at most its capacity.
pub open spec fn machine_wf(m: Machine) -> bool {
    &&& m.v.len() == 16
    &&& m.ram.len() == RAM_SIZE
    &&& m.vram.len() == DISPLAY_H
    &&& m.stack.len() <= STACK_DEPTH
    &&& m.pc < 4096
    &&& forall|k: int| 0 <= k < m.stack.len() ==> #[trigger] m.stack[k] < 4096
}

/// Address of the instruction after the current one.
pub open spec fn next_pc(m: Machine) -> u16 {
    ((m.pc + 2) % 4096) as u16
}

/// Address after a conditional skip: one more instruction when `cond` holds.
pub open spec fn skip_pc(m: Machine, cond: bool) -> u16 {
    if cond {
        ((m.pc + 4) % 4096) as u16
    } else {
        next_pc(m)
    }
}

/// The word at the program counter.
pub open spec fn fetch(m: Machine) -> u16 {
    word_of(m.ram[m.pc as int], m.ram[(m.pc + 1) % 4096])
}

/// Whether logical key `k` is down in the keyboard latch.
pub open spec fn key_down(kb: u16, k: int) -> bool {
    0 <= k < 16 && (kb >> (k as u16)) & 1 == 1
}

pub open spec fn lowest_key_from(kb: u16, k: int) -> int
    decreases 16 - k,
{
    if k >= 16 {
        16
    } else if key_down(kb, k) {
        k
    } else {
        lowest_key_from(kb, k + 1)
    }
}

/// The lowest-numbered key that is down, or 16 when none is.
pub open spec fn lowest_key(kb: u16) -> int {
    lowest_key_from(kb, 0)
}

/// Whether column `c` (0 is the leftmost) of a sprite row is set.
pub open spec fn sprite_bit(b: u8, c: int) -> bool {
    (b >> ((7 - c) as u8)) & 1 == 1
}

/// The pixels that the first `c` columns of sprite row `b` set in a display
/// row when drawn at column `vx`, wrapping at the right edge.
pub open spec fn sprite_mask(b: u8, vx: u8, c: nat) -> u64
    decreases c,
{
    if c == 0 {
        0
    } else {
        let prev = sprite_mask(b, vx, (c - 1) as nat);
        if sprite_bit(b, c - 1) {
            prev | (1u64 << (((vx + c - 1) % 64) as u64))
        } else {
            prev
        }
    }
}

/// The display after XOR-drawing the first `j` rows of the sprite at `i` at
/// (`vx`, `vy`), wrapping on both axes, and whether a set pixel was cleared.
pub open spec fn drawn(vram: Seq<u64>, ram: Seq<u8>, i: u16, vx: u8, vy: u8, j: nat) -> (Seq<u64>, bool)
    decreases j,
{
    if j == 0 {
        (vram, false)
    } else {
        let (prev, hit) = drawn(vram, ram, i, vx, vy, (j - 1) as nat);
        let row = (vy + j - 1) % 32;
        let mask = sprite_mask(ram[(i + j - 1) % 4096], vx, 8);
        (prev.update(row, prev[row] ^ mask), hit || prev[row] & mask != 0)
    }
}

/// Memory after storing registers `0..k` at `i`, `i + 1`, ...
pub open spec fn stored(ram: Seq<u8>, v: Seq<u8>, i: u16, k: nat) -> Seq<u8>
    decreases k,
{
    if k == 0 {
        ram
    } else {
        stored(ram, v, i, (k - 1) as nat).update((i + k - 1) % 4096, v[k - 1])
    }
}

/// Memory after storing the decimal digits of `val` at `i`, `i + 1`, `i + 2`.
pub open spec fn bcd_stored(ram: Seq<u8>, i: u16, val: u8) -> Seq<u8> {
    ram.update((i % 4096) as int, val / 100).update((i + 1) % 4096, (val / 10) % 10).update(
        (i + 2) % 4096,
        val % 10,
    )
}

/// Registers after loading `0..=x` from memory at `i`, `i + 1`, ...
pub open spec fn loaded(v: Seq<u8>, ram: Seq<u8>, i: u16, x: u8) -> Seq<u8> {
    Seq::new(16, |k: int| if k <= x { ram[(i + k) % 4096] } else { v[k] })
}

/// Sets register `x` to `val`, then the flag register to `flag`, and moves on.
pub open spec fn with_flag(m: Machine, x: u8, val: u8, flag: u8) -> Machine {
    Machine { v: m.v.update(x as int, val).update(15, flag), pc: next_pc(m), ..m }
}

/// Sets register `x` to `val` and moves on.
pub open spec fn with_reg(m: Machine, x: u8, val: u8) -> Machine {
    Machine { v: m.v.update(x as int, val), pc: next_pc(m), ..m }
}

pub open spec fn faulted(m: Machine, f: Fault) -> (Machine, StepStatus) {
    (Machine { fault: Some(f), ..m }, StepStatus::Faulted(f))
}

/// The effect of executing `ins` on `m`, where `rnd` is the random byte drawn
/// for it, and what the step reports.
pub open spec fn exec_spec(m: Machine, ins: Instruction, rnd: u8) -> (Machine, StepStatus) {
    let next = next_pc(m);
    let normal = StepStatus::Normal;
    match ins {
        Instruction::Cls => (Machine { vram: Seq::new(32, |r: int| 0u64), pc: next, ..m }, normal),
        Instruction::Ret => if m.stack.len() == 0 {
            faulted(m, Fault::StackUnderflow)
        } else {
            (Machine { pc: m.stack.last(), stack: m.stack.drop_last(), ..m }, normal)
        },
        Instruction::Jp(a) => (Machine { pc: a, ..m }, normal),
        Instruction::Call(a) => if m.stack.len() >= STACK_DEPTH {
            faulted(m, Fault::StackOverflow)
        } else {
            (Machine { pc: a, stack: m.stack.push(next), ..m }, normal)
        },
        Instruction::SeByte(x, k) => (Machine { pc: skip_pc(m, m.v[x as int] == k), ..m }, normal),
        Instruction::SneByte(x, k) => (Machine { pc: skip_pc(m, m.v[x as int] != k), ..m }, normal),
        Instruction::SeReg(x, y) => (
            Machine { pc: skip_pc(m, m.v[x as int] == m.v[y as int]), ..m },
            normal,
        ),
        Instruction::SneReg(x, y) => (
            Machine { pc: skip_pc(m, m.v[x as int] != m.v[y as int]), ..m },
            normal,
        ),
        Instruction::LdByte(x, k) => (with_reg(m, x, k), normal),
        Instruction::AddByte(x, k) => (with_reg(m, x, ((m.v[x as int] + k) % 256) as u8), normal),
        Instruction::LdReg(x, y) => (with_reg(m, x, m.v[y as int]), normal),
        Instruction::Or(x, y) => (with_reg(m, x, m.v[x as int] | m.v[y as int]), normal),
        Instruction::And(x, y) => (with_reg(m, x, m.v[x as int] & m.v[y as int]), normal),
        Instruction::Xor(x, y) => (with_reg(m, x, m.v[x as int] ^ m.v[y as int]), normal),
        Instruction::AddReg(x, y) => {
            let sum = m.v[x as int] + m.v[y as int];
            (with_flag(m, x, (sum % 256) as u8, if sum > 255 { 1 } else { 0 }), normal)
        },
        Instruction::SubReg(x, y) => {
            let (a, b) = (m.v[x as int], m.v[y as int]);
            (with_flag(m, x, ((a - b + 256) % 256) as u8, if a >= b { 1 } else { 0 }), normal)
        },
        Instruction::Shr(x, _) => {
            let a = m.v[x as int];
            (with_flag(m, x, a / 2, a % 2), normal)
        },
        Instruction::Subn(x, y) => {
            let (a, b) = (m.v[x as int], m.v[y as int]);
            (with_flag(m, x, ((b - a + 256) % 256) as u8, if b >= a { 1 } else { 0 }), normal)
        },
        Instruction::Shl(x, _) => {
            let a = m.v[x as int];
            (with_flag(m, x, ((a * 2) % 256) as u8, a / 128), normal)
        },
        Instruction::LdI(a) => (Machine { i: a, pc: next, ..m }, normal),
        Instruction::JpOffset(a) => (Machine { pc: ((m.v[0] + a) % 4096) as u16, ..m }, normal),
        Instruction::Rnd(x, k) => (with_reg(m, x, k & rnd), normal),
        Instruction::Drw(x, y, n) => {
            let (vram, hit) = drawn(m.vram, m.ram, m.i, m.v[x as int], m.v[y as int], n as nat);
            (
                Machine {
                    vram,
                    v: m.v.update(15, if hit { 1u8 } else { 0u8 }),
                    draw: true,
                    pc: next,
                    ..m
                },
                StepStatus::DrawReady,
            )
        },
        Instruction::Skp(x) => (
            Machine { pc: skip_pc(m, key_down(m.keyboard, m.v[x as int] as int)), ..m },
            normal,
        ),
        Instruction::Sknp(x) => (
            Machine { pc: skip_pc(m, !key_down(m.keyboard, m.v[x as int] as int)), ..m },
            normal,
        ),
        Instruction::LdVxDt(x) => (with_reg(m, x, m.dt), normal),
        Instruction::LdK(x) => {
            let k = lowest_key(m.keyboard);
            if k < 16 {
                (with_reg(m, x, k as u8), normal)
            } else {
                (Machine { input: true, ..m }, StepStatus::AwaitingInput)
            }
        },
        Instruction::LdDtVx(x) => (Machine { dt: m.v[x as int], pc: next, ..m }, normal),
        Instruction::LdStVx(x) => (Machine { st: m.v[x as int], pc: next, ..m }, normal),
        Instruction::AddI(x) => (
            Machine { i: ((m.i + m.v[x as int]) % 65536) as u16, pc: next, ..m },
            normal,
        ),
        Instruction::LdF(x) => (Machine { i: (5 * m.v[x as int]) as u16, pc: next, ..m }, normal),
        Instruction::LdB(x) => (
            Machine { ram: bcd_stored(m.ram, m.i, m.v[x as int]), pc: next, ..m },
            normal,
        ),
        Instruction::LdS(x) => (
            Machine { ram: stored(m.ram, m.v, m.i, (x + 1) as nat), pc: next, ..m },
            normal,
        ),
        Instruction::LdR(x) => (Machine { v: loaded(m.v, m.ram, m.i, x), pc: next, ..m }, normal),
        Instruction::Unknown(w) => (Machine { pc: next, ..m }, StepStatus::UnknownOpcode(w)),
    }
}

/// One interpreter step: a faulted machine stays as it is; otherwise the word
/// at the program counter is decoded and executed.
#[verifier::opaque]
pub open spec fn step_spec(m: Machine, rnd: u8) -> (Machine, StepStatus) {
    match m.fault {
        Some(f) => (m, StepStatus::Faulted(f)),
        None => exec_spec(m, decode_spec(fetch(m)), rnd),
    }
}

/// Whether a tick keeps stepping: nothing was drawn, no input is awaited,
/// and no fault occurred.
pub open spec fn running(m: Machine) -> bool {
    !m.draw && !m.input && m.fault is None
}

/// The state reached from `s` by one step per byte of `rs`, each step
/// drawing that byte as its random value.
pub open spec fn run_steps(s: Machine, rs: Seq<u8>) -> Machine
    decreases rs.len(),
{
    if rs.len() == 0 {
        s
    } else {
        step_spec(run_steps(s, rs.drop_last()), rs.last()).0
    }
}

/// Every step of `run_steps(s, rs)` starts from a running state.
pub open spec fn all_running(s: Machine, rs: Seq<u8>) -> bool {
    forall|k: int| 0 <= k < rs.len() ==> running(#[trigger] run_steps(s, rs.take(k)))
}

/// Saturating decrement of a timer.
pub open spec fn count_down(t: u8) -> u8 {
    if t > 0 {
        (t - 1) as u8
    } else {
        0
    }
}

/// The end of a tick: both timers count down once and the signals are cleared.
pub open spec fn finish_tick(m: Machine) -> Machine {
    Machine { dt: count_down(m.dt), st: count_down(m.st), draw: false, input: false, ..m }
}

pub proof fn lemma_run_steps_push(s: Machine, rs: Seq<u8>, r: u8)
    requires
        all_running(s, rs),
        running(run_steps(s, rs)),
    ensures
        run_steps(s, rs.push(r)) == step_spec(run_steps(s, rs), r).0,
        all_running(s, rs.push(r)),
{
    let rs2 = rs.push(r);
    assert(rs2.drop_last() =~= rs);
    assert(rs2.take(rs.len() as int) =~= rs);
    assert forall|k: int| 0 <= k < rs2.len() implies running(#[trigger] run_steps(s, rs2.take(k))) by {
        if k < rs.len() {
            assert(rs2.take(k) =~= rs.take(k));
        }
    }
}

/// A CALL followed later by a RET, with the stack as the CALL left it,
/// resumes at the instruction right after the CALL (not at the CALL itself)
/// and leaves the stack as it was before the CALL.
pub proof fn lemma_call_then_ret(m: Machine, a: u16, later: Machine, r1: u8, r2: u8)
    requires
        machine_wf(m),
        m.fault is None,
        m.stack.len() < STACK_DEPTH,
        decode_spec(fetch(m)) == Instruction::Call(a),
        later.fault is None,
        later.stack == step_spec(m, r1).0.stack,
        decode_spec(fetch(later)) == Instruction::Ret,
    ensures
        step_spec(m, r1).0.pc == a,
        step_spec(m, r1).1 == StepStatus::Normal,
        step_spec(later, r2).0.pc == ((m.pc + 2) % 4096) as u16,
        step_spec(later, r2).0.stack == m.stack,
        step_spec(later, r2).1 == StepStatus::Normal,
{
    reveal(step_spec);
    let called = step_spec(m, r1).0;
    assert(called.stack == m.stack.push(next_pc(m)));
    assert(called.stack.drop_last() =~= m.stack);
}

proof fn lemma_lowest_key_from(kb: u16, k: int)
    requires
        0 <= k <= 16,
    ensures
        k <= lowest_key_from(kb, k) <= 16,
        lowest_key_from(kb, k) < 16 ==> key_down(kb, lowest_key_from(kb, k)),
        forall|j: int| k <= j < lowest_key_from(kb, k) ==> !#[trigger] key_down(kb, j),
    decreases 16 - k,
{
    if k < 16 && !key_down(kb, k) {
        lemma_lowest_key_from(kb, k + 1);
    }
}

/// The key-wait instruction. With no key down it changes nothing but the
/// awaiting-input signal, so the same instruction runs again next time. With
/// a key down it loads the lowest-numbered down key into its register and
/// moves on to the next instruction without signalling.
pub proof fn lemma_key_wait(m: Machine, x: u8, r: u8)
    requires
        machine_wf(m),
        m.fault is None,
        !m.input,
        decode_spec(fetch(m)) == Instruction::LdK(x),
    ensures
        (forall|k: int| 0 <= k < 16 ==> !#[trigger] key_down(m.keyboard, k)) ==> {
            &&& step_spec(m, r).0 == (Machine { input: true, ..m })
            &&& step_spec(m, r).1 == StepStatus::AwaitingInput
        },
        (exists|k: int| 0 <= k < 16 && #[trigger] key_down(m.keyboard, k)) ==> {
            let (m2, status) = step_spec(m, r);
            &&& status == StepStatus::Normal
            &&& m2.pc == ((m.pc + 2) % 4096) as u16
            &&& !m2.input
            &&& key_down(m.keyboard, m2.v[x as int] as int)
            &&& forall|j: int| 0 <= j < m2.v[x as int] ==> !#[trigger] key_down(m.keyboard, j)
        },
{
    reveal(step_spec);
    lemma_lowest_key_from(m.keyboard, 0);
    let k = lowest_key(m.keyboard);
    if k < 16 {
        assert(with_reg(m, x, k as u8).v[x as int] == k);
    }
}

/// Whether the step from `m` would write the delay timer.
pub open spec fn writes_delay(m: Machine) -> bool {
    m.fault is None && decode_spec(fetch(m)) is LdDtVx
}

proof fn lemma_step_keeps_delay(m: Machine, r: u8)
    requires
        !writes_delay(m),
    ensures
        step_spec(m, r).0.dt == m.dt,
{
    reveal(step_spec);
}

proof fn lemma_steps_keep_delay(s: Machine, rs: Seq<u8>)
    requires
        forall|k: int| 0 <= k < rs.len() ==> !writes_delay(#[trigger] run_steps(s, rs.take(k))),
    ensures
        run_steps(s, rs).dt == s.dt,
    decreases rs.len(),
{
    if rs.len() > 0 {
        let p = rs.drop_last();
        assert forall|k: int| 0 <= k < p.len() implies !writes_delay(#[trigger] run_steps(s, p.take(k))) by {
            assert(p.take(k) =~= rs.take(k));
            assert(!writes_delay(run_steps(s, rs.take(k))));
        }
        lemma_steps_keep_delay(s, p);
        assert(rs.take(p.len() as int) =~= p);
        assert(!writes_delay(run_steps(s, rs.take(p.len() as int))));
        lemma_step_keeps_delay(run_steps(s, p), rs.last());
    }
}

/// A tick lowers the delay timer by exactly one (down to zero), however many
/// instructions it executed, as long as none of them wrote the timer.
pub proof fn lemma_tick_counts_down_once(s: Machine, rs: Seq<u8>)
    requires
        forall|k: int| 0 <= k < rs.len() ==> !writes_delay(#[trigger] run_steps(s, rs.take(k))),
    ensures
        finish_tick(run_steps(s, rs)).dt == count_down(s.dt),
{
    lemma_steps_keep_delay(s, rs);
}

} // verus!

use vstd::prelude::*;

use crate::machine::{
    drawn, exec_spec, key_down, loaded, lowest_key, lowest_key_from, machine_wf, next_pc, skip_pc,
    sprite_mask, stored, with_flag, with_reg, Fault, Machine, StepStatus, DISPLAY_H, FLAG, RAM_SIZE,
    STACK_DEPTH, step_spec, run_steps, all_running, running, finish_tick, lemma_run_steps_push,
    initial_machine, pixel, LoadError, MAX_IMAGE, PROGRAM_START, FONT_SIZE, DISPLAY_W,
};
use crate::opcode::{decode, lemma_decode_operands_in_range, word_of, Instruction};

verus! {

/// The interpreter: registers, memory, stack, timers, display and keyboard latch.
pub struct Chip8 {
    pub v: Vec<u8>,
    pub i: u16,
    pub pc: u16,
    pub dt: u8,
    pub st: u8,
    pub stack: Vec<u16>,
    pub ram: Vec<u8>,
    pub vram: Vec<u64>,
    pub keyboard: u16,
    pub draw_flag: bool,
    pub input_flag: bool,
    pub fault: Option<Fault>,
    pub steps_per_tick: u32,
}

impl View for Chip8 {
    type V = Machine;

    open spec fn view(&self) -> Machine {
        Machine {
            v: self.v@,
            i: self.i,
            pc: self.pc,
            dt: self.dt,
            st: self.st,
            stack: self.stack@,
            ram: self.ram@,
            vram: self.vram@,
            keyboard: self.keyboard,
            draw: self.draw_flag,
            input: self.input_flag,
            fault: self.fault,
            steps_per_tick: self.steps_per_tick,
        }
    }
}

/// Relies on rand::random: a byte drawn from the thread-local generator.
/// Nothing is known of its value.
#[verifier::external_body]
fn random_byte() -> u8 {
    rand::random::<u8>()
}

impl Chip8 {
    pub open spec fn wf(&self) -> bool {
        machine_wf(self@)
    }

    fn advance(&mut self)
        requires
            old(self).wf(),
        ensures
            final(self)@ == (Machine { pc: next_pc(old(self)@), ..old(self)@ }),
            final(self).wf(),
    {
        self.pc = (self.pc + 2) % 4096;
    }

    fn skip_if(&mut self, cond: bool)
        requires
            old(self).wf(),
        ensures
            final(self)@ == (Machine { pc: skip_pc(old(self)@, cond), ..old(self)@ }),
            final(self).wf(),
    {
        if cond {
            self.pc = (self.pc + 4) % 4096;
        } else {
            self.pc = (self.pc + 2) % 4096;
        }
    }

    fn set_reg(&mut self, x: u8, val: u8)
        requires
            old(self).wf(),
            x < 16,
        ensures
            final(self)@ == with_reg(old(self)@, x, val),
            final(self).wf(),
    {
        self.v.set(x as usize, val);
        self.advance();
    }

    fn set_reg_flag(&mut self, x: u8, val: u8, flag: u8)
        requires
            old(self).wf(),
            x < 16,
        ensures
            final(self)@ == with_flag(old(self)@, x, val, flag),
            final(self).wf(),
    {
        self.v.set(x as usize, val);
        self.v.set(FLAG, flag);
        self.advance();
    }

    // clear screen
    fn cls(&mut self) -> (r: StepStatus)
        requires
            old(self).wf(),
        ensures
            (final(self)@, r) == exec_spec(old(self)@, Instruction::Cls, 0),
            final(self).wf(),
    {
        let ghost start = self@;
        let mut row: usize = 0;
        while row < DISPLAY_H
            invariant
                row <= DISPLAY_H,
                self@ == (Machine { vram: self.vram@, ..start }),
                self.vram@.len() == DISPLAY_H,
                forall|k: int| 0 <= k < row ==> self.vram@[k] == 0u64,
            decreases DISPLAY_H - row,
        {
            self.vram.set(row, 0);
            row = row + 1;
        }
        assert(self.vram@ =~= Seq::new(32, |r: int| 0u64));
        self.advance();
        StepStatus::Normal
    }

    // return from subroutine
    fn ret(&mut self) -> (r: StepStatus)
        requires
            old(self).wf(),
        ensures
            (final(self)@, r) == exec_spec(old(self)@, Instruction::Ret, 0),
            final(self).wf(),
    {
        match self.stack.pop() {
            Some(addr) => {
                self.pc = addr;
                StepStatus::Normal
            },
            None => {
                self.fault = Some(Fault::StackUnderflow);
                StepStatus::Faulted(Fault::StackUnderflow)
            },
        }
    }

    // absolute jump
    fn jp(&mut self, addr: u16) -> (r: StepStatus)
        requires
            old(self).wf(),
            addr < 4096,
        ensures
            (final(self)@, r) == exec_spec(old(self)@, Instruction::Jp(addr), 0),
            final(self).wf(),
    {
        self.pc = addr;
        StepStatus::Normal
    }

    // call subroutine
    fn call(&mut self, addr: u16) -> (r: StepStatus)
        requires
            old(self).wf(),
            addr < 4096,
        ensures
            (final(self)@, r) == exec_spec(old(self)@, Instruction::Call(addr), 0),
            final(self).wf(),
    {
        if self.stack.len() >= STACK_DEPTH {
            self.fault = Some(Fault::StackOverflow);
            StepStatus::Faulted(Fault::StackOverflow)
        } else {
            self.stack.push((self.pc + 2) % 4096);
            self.pc = addr;
            StepStatus::Normal
        }
    }

    // skip next instruction if reg is equal to byte
    fn se_byte(&mut self, x: u8, lit: u8) -> (r: StepStatus)
        requires
            old(self).wf(),
            x < 16,
        ensures
            (final(self)@, r) == exec_spec(old(self)@, Instruction::SeByte(x, lit), 0),
            final(self).wf(),
    {
        let cond = self.v[x as usize] == lit;
        self.skip_if(cond);
        StepStatus::Normal
    }

    fn sne_byte(&mut self, x: u8, lit: u8) -> (r: StepStatus)
        requires
            old(self).wf(),
            x < 16,
        ensures
            (final(self)@, r) == exec_spec(old(self)@, Instruction::SneByte(x, lit), 0),
            final(self).wf(),
    {
        let cond = self.v[x as usize] != lit;
        self.skip_if(cond);
        StepStatus::Normal
    }

    fn se_reg(&mut self, x: u8, y: u8) -> (r: StepStatus)
        requires
            old(self).wf(),
            x < 16,
            y < 16,
        ensures
            (final(self)@, r) == exec_spec(old(self)@, Instruction::SeReg(x, y), 0),
            final(self).wf(),
    {
        let cond = self.v[x as usize] == self.v[y as usize];
        self.skip_if(cond);
        StepStatus::Normal
    }

    fn sne_reg(&mut self, x: u8, y: u8) -> (r: StepStatus)
        requires
            old(self).wf(),
            x < 16,
            y < 16,
        ensures
            (final(self)@, r) == exec_spec(old(self)@, Instruction::SneReg(x, y), 0),
            final(self).wf(),
    {
        let cond = self.v[x as usize] != self.v[y as usize];
        self.skip_if(cond);
        StepStatus::Normal
    }

    fn ld_byte(&mut self, x: u8, lit: u8) -> (r: StepStatus)
        requires
            old(self).wf(),
            x < 16,
        ensures
            (final(self)@, r) == exec_spec(old(self)@, Instruction::LdByte(x, lit), 0),
            final(self).wf(),
    {
        self.set_reg(x, lit);
        StepStatus::Normal
    }

    fn add_byte(&mut self, x: u8, lit: u8) -> (r: StepStatus)
        requires
            old(self).wf(),
            x < 16,
        ensures
            (final(self)@, r) == exec_spec(old(self)@, Instruction::AddByte(x, lit), 0),
            final(self).wf(),
    {
        let sum: u16 = self.v[x as usize] as u16 + lit as u16;
        self.set_reg(x, (sum % 256) as u8);
        StepStatus::Normal
    }

    fn ld_reg(&mut self, x: u8, y: u8) -> (r: StepStatus)
        requires
            old(self).wf(),
            x < 16,
            y < 16,
        ensures
            (final(self)@, r) == exec_spec(old(self)@, Instruction::LdReg(x, y), 0),
            final(self).wf(),
    {
        let val = self.v[y as usize];
        self.set_reg(x, val);
        StepStatus::Normal
    }

    fn or(&mut self, x: u8, y: u8) -> (r: StepStatus)
        requires
            old(self).wf(),
            x < 16,
            y < 16,
        ensures
            (final(self)@, r) == exec_spec(old(self)@, Instruction::Or(x, y), 0),
            final(self).wf(),
    {
        let val = self.v[x as usize] | self.v[y as usize];
        self.set_reg(x, val);
        StepStatus::Normal
    }

    fn and(&mut self, x: u8, y: u8) -> (r: StepStatus)
        requires
            old(self).wf(),
            x < 16,
            y < 16,
        ensures
            (final(self)@, r) == exec_spec(old(self)@, Instruction::And(x, y), 0),
            final(self).wf(),
    {
        let val = self.v[x as usize] & self.v[y as usize];
        self.set_reg(x, val);
        StepStatus::Normal
    }

    fn xor(&mut self, x: u8, y: u8) -> (r: StepStatus)
        requires
            old(self).wf(),
            x < 16,
            y < 16,
        ensures
            (final(self)@, r) == exec_spec(old(self)@, Instruction::Xor(x, y), 0),
            final(self).wf(),
    {
        let val = self.v[x as usize] ^ self.v[y as usize];
        self.set_reg(x, val);
        StepStatus::Normal
    }

    fn add_reg(&mut self, x: u8, y: u8) -> (r: StepStatus)
        requires
            old(self).wf(),
            x < 16,
            y < 16,
        ensures
            (final(self)@, r) == exec_spec(old(self)@, Instruction::AddReg(x, y), 0),
            final(self).wf(),
    {
        let sum: u16 = self.v[x as usize] as u16 + self.v[y as usize] as u16;
        let flag: u8 = if sum > 255 { 1 } else { 0 };
        self.set_reg_flag(x, (sum % 256) as u8, flag);
        StepStatus::Normal
    }

    fn sub_reg(&mut self, x: u8, y: u8) -> (r: StepStatus)
        requires
            old(self).wf(),
            x < 16,
            y < 16,
        ensures
            (final(self)@, r) == exec_spec(old(self)@, Instruction::SubReg(x, y), 0),
            final(self).wf(),
    {
        let a: u16 = self.v[x as usize] as u16;
        let b: u16 = self.v[y as usize] as u16;
        let flag: u8 = if a >= b { 1 } else { 0 };
        self.set_reg_flag(x, ((a + 256 - b) % 256) as u8, flag);
        StepStatus::Normal
    }

    fn shr(&mut self, x: u8, y: u8) -> (r: StepStatus)
        requires
            old(self).wf(),
            x < 16,
            y < 16,
        ensures
            (final(self)@, r) == exec_spec(old(self)@, Instruction::Shr(x, y), 0),
            final(self).wf(),
    {
        let a = self.v[x as usize];
        self.set_reg_flag(x, a / 2, a % 2);
        StepStatus::Normal
    }

    fn subn(&mut self, x: u8, y: u8) -> (r: StepStatus)
        requires
            old(self).wf(),
            x < 16,
            y < 16,
        ensures
            (final(self)@, r) == exec_spec(old(self)@, Instruction::Subn(x, y), 0),
            final(self).wf(),
    {
        let a: u16 = self.v[x as usize] as u16;
        let b: u16 = self.v[y as usize] as u16;
        let flag: u8 = if b >= a { 1 } else { 0 };
        self.set_reg_flag(x, ((b + 256 - a) % 256) as u8, flag);
        StepStatus::Normal
    }

    fn shl(&mut self, x: u8, y: u8) -> (r: StepStatus)
        requires
            old(self).wf(),
            x < 16,
            y < 16,
        ensures
            (final(self)@, r) == exec_spec(old(self)@, Instruction::Shl(x, y), 0),
            final(self).wf(),
    {
        let a = self.v[x as usize];
        self.set_reg_flag(x, ((a as u16 * 2) % 256) as u8, a / 128);
        StepStatus::Normal
    }

    fn ld_i(&mut self, addr: u16) -> (r: StepStatus)
        requires
            old(self).wf(),
        ensures
            (final(self)@, r) == exec_spec(old(self)@, Instruction::LdI(addr), 0),
            final(self).wf(),
    {
        self.i = addr;
        self.advance();
        StepStatus::Normal
    }

    fn jp_offset(&mut self, addr: u16) -> (r: StepStatus)
        requires
            old(self).wf(),
            addr < 4096,
        ensures
            (final(self)@, r) == exec_spec(old(self)@, Instruction::JpOffset(addr), 0),
            final(self).wf(),
    {
        self.pc = (self.v[0] as u16 + addr) % 4096;
        StepStatus::Normal
    }

    fn rnd(&mut self, x: u8, lit: u8, rnd: u8) -> (r: StepStatus)
        requires
            old(self).wf(),
            x < 16,
        ensures
            (final(self)@, r) == exec_spec(old(self)@, Instruction::Rnd(x, lit), rnd),
            final(self).wf(),
    {
        self.set_reg(x, lit & rnd);
        StepStatus::Normal
    }

    fn drw(&mut self, x: u8, y: u8, n: u8) -> (r: StepStatus)
        requires
            old(self).wf(),
            x < 16,
            y < 16,
            n < 16,
        ensures
            (final(self)@, r) == exec_spec(old(self)@, Instruction::Drw(x, y, n), 0),
            final(self).wf(),
    {
        let ghost start = self@;
        let vx = self.v[x as usize];
        let vy = self.v[y as usize];
        let i = self.i;
        let mut erased = false;
        let mut j: u8 = 0;
        while j < n
            invariant
                j <= n,
                n < 16,
                machine_wf(start),
                self@ == (Machine { vram: self.vram@, ..start }),
                vx == start.v[x as int],
                vy == start.v[y as int],
                i == start.i,
                (self.vram@, erased) == drawn(start.vram, start.ram, i, vx, vy, j as nat),
                self.vram@.len() == DISPLAY_H,
            decreases n - j,
        {
            let row: usize = (vy as usize + j as usize) % DISPLAY_H;
            let b = self.ram[(i as usize + j as usize) % RAM_SIZE];
            let mask = sprite_row_mask(b, vx);
            let cur = self.vram[row];
            erased = erased || cur & mask != 0;
            self.vram.set(row, cur ^ mask);
            j = j + 1;
        }
        self.v.set(FLAG, if erased { 1 } else { 0 });
        self.draw_flag = true;
        self.advance();
        StepStatus::DrawReady
    }

    fn key_is_down(&self, k: u8) -> (r: bool)
        ensures
            r == key_down(self.keyboard, k as int),
    {
        k < 16 && (self.keyboard >> (k as u16)) & 1 == 1
    }

    fn skp(&mut self, x: u8) -> (r: StepStatus)
        requires
            old(self).wf(),
            x < 16,
        ensures
            (final(self)@, r) == exec_spec(old(self)@, Instruction::Skp(x), 0),
            final(self).wf(),
    {
        let cond = self.key_is_down(self.v[x as usize]);
        self.skip_if(cond);
        StepStatus::Normal
    }

    fn sknp(&mut self, x: u8) -> (r: StepStatus)
        requires
            old(self).wf(),
            x < 16,
        ensures
            (final(self)@, r) == exec_spec(old(self)@, Instruction::Sknp(x), 0),
            final(self).wf(),
    {
        let cond = !self.key_is_down(self.v[x as usize]);
        self.skip_if(cond);
        StepStatus::Normal
    }

    fn ld_vx_dt(&mut self, x: u8) -> (r: StepStatus)
        requires
            old(self).wf(),
            x < 16,
        ensures
            (final(self)@, r) == exec_spec(old(self)@, Instruction::LdVxDt(x), 0),
            final(self).wf(),
    {
        let val = self.dt;
        self.set_reg(x, val);
        StepStatus::Normal
    }

    fn ld_k(&mut self, x: u8) -> (r: StepStatus)
        requires
            old(self).wf(),
            x < 16,
        ensures
            (final(self)@, r) == exec_spec(old(self)@, Instruction::LdK(x), 0),
            final(self).wf(),
    {
        let mut k: u8 = 0;
        while k < 16 && !self.key_is_down(k)
            invariant
                k <= 16,
                lowest_key(self.keyboard) == lowest_key_from(self.keyboard, k as int),
            decreases 16 - k,
        {
            k = k + 1;
        }
        if k < 16 {
            self.set_reg(x, k);
            StepStatus::Normal
        } else {
            self.input_flag = true;
            StepStatus::AwaitingInput
        }
    }

    fn ld_dt_vx(&mut self, x: u8) -> (r: StepStatus)
        requires
            old(self).wf(),
            x < 16,
        ensures
            (final(self)@, r) == exec_spec(old(self)@, Instruction::LdDtVx(x), 0),
            final(self).wf(),
    {
        self.dt = self.v[x as usize];
        self.advance();
        StepStatus::Normal
    }

    fn ld_st_vx(&mut self, x: u8) -> (r: StepStatus)
        requires
            old(self).wf(),
            x < 16,
        ensures
            (final(self)@, r) == exec_spec(old(self)@, Instruction::LdStVx(x), 0),
            final(self).wf(),
    {
        self.st = self.v[x as usize];
        self.advance();
        StepStatus::Normal
    }

    fn add_i(&mut self, x: u8) -> (r: StepStatus)
        requires
            old(self).wf(),
            x < 16,
        ensures
            (final(self)@, r) == exec_spec(old(self)@, Instruction::AddI(x), 0),
            final(self).wf(),
    {
        self.i = ((self.i as u32 + self.v[x as usize] as u32) % 65536) as u16;
        self.advance();
        StepStatus::Normal
    }

    fn ld_f(&mut self, x: u8) -> (r: StepStatus)
        requires
            old(self).wf(),
            x < 16,
        ensures
            (final(self)@, r) == exec_spec(old(self)@, Instruction::LdF(x), 0),
            final(self).wf(),
    {
        self.i = 5 * (self.v[x as usize] as u16);
        self.advance();
        StepStatus::Normal
    }

    fn ld_b(&mut self, x: u8) -> (r: StepStatus)
        requires
            old(self).wf(),
            x < 16,
        ensures
            (final(self)@, r) == exec_spec(old(self)@, Instruction::LdB(x), 0),
            final(self).wf(),
    {
        let val = self.v[x as usize];
        let i = self.i as usize;
        self.ram.set(i % RAM_SIZE, val / 100);
        self.ram.set((i + 1) % RAM_SIZE, (val / 10) % 10);
        self.ram.set((i + 2) % RAM_SIZE, val % 10);
        self.advance();
        StepStatus::Normal
    }

    // store registers v0-vx in memory starting at address I
    fn ld_s(&mut self, x: u8) -> (r: StepStatus)
        requires
            old(self).wf(),
            x < 16,
        ensures
            (final(self)@, r) == exec_spec(old(self)@, Instruction::LdS(x), 0),
            final(self).wf(),
    {
        let ghost start = self@;
        let i = self.i as usize;
        let mut k: u8 = 0;
        while k <= x
            invariant
                k <= x + 1,
                x < 16,
                machine_wf(start),
                i == start.i,
                self@ == (Machine { ram: self.ram@, ..start }),
                self.ram@ == stored(start.ram, start.v, start.i, k as nat),
                self.ram@.len() == RAM_SIZE,
            decreases x + 1 - k,
        {
            let val = self.v[k as usize];
            self.ram.set((i + k as usize) % RAM_SIZE, val);
            k = k + 1;
        }
        self.advance();
        StepStatus::Normal
    }

    // read registers v0-vx from memory starting at address I
    fn ld_r(&mut self, x: u8) -> (r: StepStatus)
        requires
            old(self).wf(),
            x < 16,
        ensures
            (final(self)@, r) == exec_spec(old(self)@, Instruction::LdR(x), 0),
            final(self).wf(),
    {
        let ghost start = self@;
        let i = self.i as usize;
        let mut k: u8 = 0;
        while k <= x
            invariant
                k <= x + 1,
                x < 16,
                machine_wf(start),
                i == start.i,
                self@ == (Machine { v: self.v@, ..start }),
                self.v@.len() == 16,
                forall|j: int|
                    0 <= j < 16 ==> #[trigger] self.v@[j] == if j < k {
                        start.ram[(i + j) % 4096]
                    } else {
                        start.v[j]
                    },
            decreases x + 1 - k,
        {
            let val = self.ram[(i + k as usize) % RAM_SIZE];
            self.v.set(k as usize, val);
            k = k + 1;
        }
        assert(self.v@ =~= loaded(start.v, start.ram, start.i, x));
        self.advance();
        StepStatus::Normal
    }
}

impl Chip8 {
    /// Builds a machine with `font` at address 0 and `rom` loaded at the
    /// program start; an image that does not fit in memory is refused.
    pub fn new(font: &Vec<u8>, rom: &Vec<u8>, steps_per_tick: u32) -> (r: Result<Chip8, LoadError>)
        requires
            font@.len() == FONT_SIZE,
        ensures
            rom@.len() > MAX_IMAGE <==> r is Err,
            r is Err ==> r == Err::<Chip8, LoadError>(LoadError::ImageTooLarge),
            r matches Ok(c) ==> c.wf() && c@ == initial_machine(font@, rom@, steps_per_tick),
    {
        if rom.len() > MAX_IMAGE {
            return Err(LoadError::ImageTooLarge);
        }
        let mut ram: Vec<u8> = Vec::new();
        let mut a: usize = 0;
        while a < RAM_SIZE
            invariant
                a <= RAM_SIZE,
                ram@.len() == a,
                rom@.len() <= MAX_IMAGE,
                font@.len() == FONT_SIZE,
                forall|k: int|
                    0 <= k < a ==> #[trigger] ram@[k] == if k < FONT_SIZE {
                        font@[k]
                    } else if PROGRAM_START <= k < PROGRAM_START + rom@.len() {
                        rom@[k - PROGRAM_START]
                    } else {
                        0u8
                    },
            decreases RAM_SIZE - a,
        {
            let byte = if a < FONT_SIZE {
                font[a]
            } else if PROGRAM_START as usize <= a && a < PROGRAM_START as usize + rom.len() {
                rom[a - PROGRAM_START as usize]
            } else {
                0
            };
            ram.push(byte);
            a = a + 1;
        }
        let mut v: Vec<u8> = Vec::new();
        while v.len() < 16
            invariant
                v@.len() <= 16,
                forall|k: int| 0 <= k < v@.len() ==> #[trigger] v@[k] == 0u8,
            decreases 16 - v@.len(),
        {
            v.push(0);
        }
        let mut vram: Vec<u64> = Vec::new();
        while vram.len() < DISPLAY_H
            invariant
                vram@.len() <= DISPLAY_H,
                forall|k: int| 0 <= k < vram@.len() ==> #[trigger] vram@[k] == 0u64,
            decreases DISPLAY_H - vram@.len(),
        {
            vram.push(0);
        }
        let c = Chip8 {
            v,
            i: 0,
            pc: PROGRAM_START,
            dt: 0,
            st: 0,
            stack: Vec::new(),
            ram,
            vram,
            keyboard: 0,
            draw_flag: false,
            input_flag: false,
            fault: None,
            steps_per_tick,
        };
        let ghost init = initial_machine(font@, rom@, steps_per_tick);
        assert(c.v@ =~= init.v);
        assert(c.ram@ =~= init.ram);
        assert(c.vram@ =~= init.vram);
        assert(c.stack@ =~= init.stack);
        assert(c@ == init);
        Ok(c)
    }

    /// Executes one instruction, with `rnd` as the random byte that an RND
    /// instruction combines with its operand.
    pub fn step_with(&mut self, rnd: u8) -> (r: StepStatus)
        requires
            old(self).wf(),
        ensures
            final(self).wf(),
            (final(self)@, r) == step_spec(old(self)@, rnd),
    {
        proof {
            reveal(step_spec);
        }
        match self.fault {
            Some(f) => {
                return StepStatus::Faulted(f);
            },
            None => {},
        }
        let upper = self.ram[self.pc as usize];
        let lower = self.ram[(self.pc as usize + 1) % RAM_SIZE];
        let ins = decode(upper, lower);
        proof {
            lemma_decode_operands_in_range(word_of(upper, lower));
        }
        match ins {
            Instruction::Cls => self.cls(),
            Instruction::Ret => self.ret(),
            Instruction::Jp(a) => self.jp(a),
            Instruction::Call(a) => self.call(a),
            Instruction::SeByte(x, k) => self.se_byte(x, k),
            Instruction::SneByte(x, k) => self.sne_byte(x, k),
            Instruction::SeReg(x, y) => self.se_reg(x, y),
            Instruction::LdByte(x, k) => self.ld_byte(x, k),
            Instruction::AddByte(x, k) => self.add_byte(x, k),
            Instruction::LdReg(x, y) => self.ld_reg(x, y),
            Instruction::Or(x, y) => self.or(x, y),
            Instruction::And(x, y) => self.and(x, y),
            Instruction::Xor(x, y) => self.xor(x, y),
            Instruction::AddReg(x, y) => self.add_reg(x, y),
            Instruction::SubReg(x, y) => self.sub_reg(x, y),
            Instruction::Shr(x, y) => self.shr(x, y),
            Instruction::Subn(x, y) => self.subn(x, y),
            Instruction::Shl(x, y) => self.shl(x, y),
            Instruction::SneReg(x, y) => self.sne_reg(x, y),
            Instruction::LdI(a) => self.ld_i(a),
            Instruction::JpOffset(a) => self.jp_offset(a),
            Instruction::Rnd(x, k) => self.rnd(x, k, rnd),
            Instruction::Drw(x, y, n) => self.drw(x, y, n),
            Instruction::Skp(x) => self.skp(x),
            Instruction::Sknp(x) => self.sknp(x),
            Instruction::LdVxDt(x) => self.ld_vx_dt(x),
            Instruction::LdK(x) => self.ld_k(x),
            Instruction::LdDtVx(x) => self.ld_dt_vx(x),
            Instruction::LdStVx(x) => self.ld_st_vx(x),
            Instruction::AddI(x) => self.add_i(x),
            Instruction::LdF(x) => self.ld_f(x),
            Instruction::LdB(x) => self.ld_b(x),
            Instruction::LdS(x) => self.ld_s(x),
            Instruction::LdR(x) => self.ld_r(x),
            Instruction::Unknown(w) => {
                self.advance();
                StepStatus::UnknownOpcode(w)
            },
        }
    }

    /// Executes one instruction, drawing a fresh random byte for it.
    pub fn step(&mut self) -> (r: StepStatus)
        requires
            old(self).wf(),
        ensures
            final(self).wf(),
            exists|rnd: u8| (final(self)@, r) == step_spec(old(self)@, rnd),
    {
        let rnd = random_byte();
        self.step_with(rnd)
    }

    /// One frame: steps until a draw or a key wait is signalled, a fault
    /// occurs, or the per-tick budget of steps is spent; then both timers
    /// count down once and the signals are cleared. A fault is returned.
    pub fn tick(&mut self) -> (r: Result<(), Fault>)
        requires
            old(self).wf(),
        ensures
            final(self).wf(),
            exists|rs: Seq<u8>|
                {
                    &&& rs.len() <= old(self).steps_per_tick
                    &&& all_running(old(self)@, rs)
                    &&& (rs.len() == old(self).steps_per_tick || !running(
                        #[trigger] run_steps(old(self)@, rs),
                    ))
                    &&& final(self)@ == finish_tick(run_steps(old(self)@, rs))
                },
            r == match final(self).fault {
                Some(f) => Err(f),
                None => Ok::<(), Fault>(()),
            },
    {
        let ghost start = self@;
        let ghost mut rs: Seq<u8> = Seq::empty();
        let budget = self.steps_per_tick;
        let mut count: u32 = 0;
        while count < budget && !self.draw_flag && !self.input_flag && self.fault.is_none()
            invariant
                self.wf(),
                budget == start.steps_per_tick,
                count <= budget,
                rs.len() == count,
                all_running(start, rs),
                self@ == run_steps(start, rs),
            decreases budget - count,
        {
            let rnd = random_byte();
            self.step_with(rnd);
            proof {
                lemma_run_steps_push(start, rs, rnd);
                rs = rs.push(rnd);
            }
            count = count + 1;
        }
        if self.dt > 0 {
            self.dt = self.dt - 1;
        }
        if self.st > 0 {
            self.st = self.st - 1;
        }
        self.draw_flag = false;
        self.input_flag = false;
        assert(self@ == finish_tick(run_steps(start, rs)));
        match self.fault {
            Some(f) => Err(f),
            None => Ok(()),
        }
    }

    /// Whether pixel (`x`, `y`) of the display is set.
    pub fn get_vram_bit(&self, x: usize, y: usize) -> (r: bool)
        requires
            self.wf(),
            x < DISPLAY_W,
            y < DISPLAY_H,
        ensures
            r == pixel(self@.vram, x as int, y as int),
    {
        (self.vram[y] >> (x as u64)) & 1 == 1
    }

    /// Presses every key whose bit is set in `key`.
    pub fn keydown(&mut self, key: u16)
        requires
            old(self).wf(),
        ensures
            final(self).wf(),
            final(self)@ == (Machine { keyboard: old(self).keyboard | key, ..old(self)@ }),
    {
        self.keyboard = self.keyboard | key;
    }

    /// Releases every key whose bit is set in `key`.
    pub fn keyup(&mut self, key: u16)
        requires
            old(self).wf(),
        ensures
            final(self).wf(),
            final(self)@ == (Machine { keyboard: old(self).keyboard & !key, ..old(self)@ }),
    {
        self.keyboard = self.keyboard & !key;
    }

    /// Sets logical key `k` down or up, leaving the other keys as they are.
    pub fn set_key(&mut self, k: u8, down: bool)
        requires
            old(self).wf(),
            k < 16,
        ensures
            final(self).wf(),
            final(self)@ == (Machine { keyboard: final(self).keyboard, ..old(self)@ }),
            key_down(final(self).keyboard, k as int) == down,
            forall|j: int| 0 <= j < 16 && j != k ==> key_down(final(self).keyboard, j)
                == key_down(old(self).keyboard, j),
    {
        let bit: u16 = 1u16 << (k as u16);
        let kb = self.keyboard;
        if down {
            self.keydown(bit);
        } else {
            self.keyup(bit);
        }
        assert forall|j: int| 0 <= j < 16 implies (key_down(self.keyboard, j) == if j == k {
            down
        } else {
            key_down(kb, j)
        }) by {
            if down {
                lemma_bit_set(kb, k as u16, j as u16);
            } else {
                lemma_bit_clear(kb, k as u16, j as u16);
            }
        }
    }
}

proof fn lemma_bit_set(kb: u16, k: u16, j: u16)
    requires
        k < 16,
        j < 16,
    ensures
        (((kb | (1u16 << k)) >> j) & 1 == 1) == (j == k || (kb >> j) & 1 == 1),
{
    assert((((kb | (1u16 << k)) >> j) & 1 == 1) == (j == k || (kb >> j) & 1 == 1)) by (bit_vector)
        requires
            k < 16,
            j < 16,
    ;
}

proof fn lemma_bit_clear(kb: u16, k: u16, j: u16)
    requires
        k < 16,
        j < 16,
    ensures
        (((kb & !(1u16 << k)) >> j) & 1 == 1) == (j != k && (kb >> j) & 1 == 1),
{
    assert((((kb & !(1u16 << k)) >> j) & 1 == 1) == (j != k && (kb >> j) & 1 == 1)) by (bit_vector)
        requires
            k < 16,
            j < 16,
    ;
}

/// The display-row mask of sprite row `b` drawn at column `vx`.
fn sprite_row_mask(b: u8, vx: u8) -> (r: u64)
    ensures
        r == sprite_mask(b, vx, 8),
{
    let mut mask: u64 = 0;
    let mut c: u8 = 0;
    while c < 8
        invariant
            c <= 8,
            mask == sprite_mask(b, vx, c as nat),
        decreases 8 - c,
    {
        let col: u64 = (vx as u64 + c as u64) % 64;
        if (b >> (7 - c)) & 1 == 1 {
            mask = mask | (1u64 << col);
        }
        c = c + 1;
    }
    mask
}

} // verus!

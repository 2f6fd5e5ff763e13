use chip8::emulator::Chip8;
use chip8::machine::{font, Fault, LoadError, StepStatus};

fn machine(program: &[u8], steps_per_tick: u32) -> Chip8 {
    Chip8::new(&font(), &program.to_vec(), steps_per_tick).ok().unwrap()
}

fn run(c: &mut Chip8, steps: usize) -> StepStatus {
    let mut status = StepStatus::Normal;
    for _ in 0..steps {
        status = c.step_with(0);
    }
    status
}

#[test]
fn add_with_carry() {
    let mut c = machine(&[0x61, 200, 0x62, 100, 0x81, 0x24], 10);
    assert_eq!(run(&mut c, 3), StepStatus::Normal);
    assert_eq!(c.v[1], 44);
    assert_eq!(c.v[15], 1);
    assert_eq!(c.pc, 0x206);
}

#[test]
fn add_without_carry() {
    let mut c = machine(&[0x61, 20, 0x62, 100, 0x81, 0x24], 10);
    run(&mut c, 3);
    assert_eq!(c.v[1], 120);
    assert_eq!(c.v[15], 0);
}

#[test]
fn sub_with_borrow() {
    let mut c = machine(&[0x61, 10, 0x62, 20, 0x81, 0x25], 10);
    run(&mut c, 3);
    assert_eq!(c.v[1], 246);
    assert_eq!(c.v[15], 0);
}

#[test]
fn sub_equal_values_sets_flag() {
    let mut c = machine(&[0x61, 20, 0x62, 20, 0x81, 0x25], 10);
    run(&mut c, 3);
    assert_eq!(c.v[1], 0);
    assert_eq!(c.v[15], 1);
}

#[test]
fn subn_without_borrow() {
    let mut c = machine(&[0x61, 10, 0x62, 20, 0x81, 0x27], 10);
    run(&mut c, 3);
    assert_eq!(c.v[1], 10);
    assert_eq!(c.v[15], 1);
}

#[test]
fn shifts_report_the_lost_bit() {
    let mut c = machine(&[0x61, 0x81, 0x81, 0x06], 10);
    run(&mut c, 2);
    assert_eq!(c.v[1], 0x40);
    assert_eq!(c.v[15], 1);
    let mut c = machine(&[0x61, 0x81, 0x81, 0x0e], 10);
    run(&mut c, 2);
    assert_eq!(c.v[1], 0x02);
    assert_eq!(c.v[15], 1);
    let mut c = machine(&[0x61, 0x40, 0x81, 0x0e], 10);
    run(&mut c, 2);
    assert_eq!(c.v[1], 0x80);
    assert_eq!(c.v[15], 0);
}

#[test]
fn bitwise_and_byte_ops() {
    let mut c = machine(&[0x61, 0x0c, 0x62, 0x0a, 0x81, 0x21, 0x63, 0x0c, 0x83, 0x22, 0x64, 0x0c, 0x84, 0x23, 0x75, 0xff, 0x75, 0x02], 10);
    run(&mut c, 9);
    assert_eq!(c.v[1], 0x0e);
    assert_eq!(c.v[3], 0x08);
    assert_eq!(c.v[4], 0x06);
    assert_eq!(c.v[5], 0x01);
}

#[test]
fn draw_wraps_and_self_erases() {
    let program = [0xa2, 0x0a, 0x60, 60, 0x61, 0, 0xd0, 0x11, 0xd0, 0x11, 0xff];
    let mut c = machine(&program, 10);
    run(&mut c, 3);
    assert_eq!(c.step_with(0), StepStatus::DrawReady);
    for x in 0..64 {
        let expected = x >= 60 || x < 4;
        assert_eq!(c.get_vram_bit(x, 0), expected, "x = {}", x);
        assert!(!c.get_vram_bit(x, 1));
    }
    assert_eq!(c.v[15], 0);
    assert!(c.draw_flag);
    assert_eq!(c.step_with(0), StepStatus::DrawReady);
    for x in 0..64 {
        assert!(!c.get_vram_bit(x, 0));
    }
    assert_eq!(c.v[15], 1);
}

#[test]
fn draw_wraps_vertically_and_cls_clears() {
    // I = font glyph 0, draw 5 rows at (0, 30), then clear
    let mut c = machine(&[0x60, 0, 0x61, 30, 0xf0, 0x29, 0xd0, 0x15, 0x00, 0xe0], 10);
    run(&mut c, 4);
    assert_eq!(c.i, 0);
    assert!(c.get_vram_bit(0, 30));
    assert!(c.get_vram_bit(3, 31));
    assert!(!c.get_vram_bit(1, 31));
    assert!(c.get_vram_bit(0, 0));
    assert!(c.get_vram_bit(3, 2));
    assert!(!c.get_vram_bit(0, 3));
    run(&mut c, 1);
    for y in 0..32 {
        for x in 0..64 {
            assert!(!c.get_vram_bit(x, y));
        }
    }
}

#[test]
fn call_then_ret_resumes_after_call() {
    let mut c = machine(&[0x22, 0x06, 0x61, 0x07, 0x00, 0x00, 0x62, 0x01, 0x00, 0xee], 10);
    c.step_with(0);
    assert_eq!(c.pc, 0x206);
    assert_eq!(c.stack, vec![0x202]);
    run(&mut c, 2);
    assert_eq!(c.pc, 0x202);
    assert!(c.stack.is_empty());
    run(&mut c, 1);
    assert_eq!(c.v[1], 7);
}

#[test]
fn stack_overflow_faults() {
    let mut c = machine(&[0x22, 0x00], 100);
    for _ in 0..16 {
        assert_eq!(c.step_with(0), StepStatus::Normal);
    }
    assert_eq!(c.step_with(0), StepStatus::Faulted(Fault::StackOverflow));
    assert_eq!(c.stack.len(), 16);
    assert_eq!(c.step_with(0), StepStatus::Faulted(Fault::StackOverflow));
    assert_eq!(c.tick(), Err(Fault::StackOverflow));
}

#[test]
fn stack_underflow_faults() {
    let mut c = machine(&[0x00, 0xee], 10);
    assert_eq!(c.step_with(0), StepStatus::Faulted(Fault::StackUnderflow));
    assert_eq!(c.pc, 0x200);
    let mut c = machine(&[0x00, 0xee], 10);
    assert_eq!(c.tick(), Err(Fault::StackUnderflow));
}

#[test]
fn unknown_opcode_is_reported_and_skipped() {
    let mut c = machine(&[0x50, 0x01, 0x61, 0x02], 10);
    assert_eq!(c.step_with(0), StepStatus::UnknownOpcode(0x5001));
    assert_eq!(c.pc, 0x202);
    c.step_with(0);
    assert_eq!(c.v[1], 2);
}

#[test]
fn key_wait_blocks_then_takes_lowest_key() {
    let mut c = machine(&[0xf3, 0x0a, 0x64, 0x01], 1);
    assert_eq!(c.tick(), Ok(()));
    assert_eq!(c.pc, 0x200);
    assert!(!c.input_flag);
    assert_eq!(c.step_with(0), StepStatus::AwaitingInput);
    assert_eq!(c.pc, 0x200);
    assert!(c.input_flag);
    c.input_flag = false;
    c.set_key(9, true);
    c.set_key(5, true);
    assert_eq!(c.step_with(0), StepStatus::Normal);
    assert_eq!(c.v[3], 5);
    assert_eq!(c.pc, 0x202);
    assert!(!c.input_flag);
}

#[test]
fn skip_on_key_state() {
    let mut c = machine(&[0x60, 0x05, 0xe0, 0x9e, 0x00, 0x00, 0xe0, 0xa1], 10);
    c.keydown(1 << 5);
    run(&mut c, 2);
    assert_eq!(c.pc, 0x206);
    c.keyup(1 << 5);
    run(&mut c, 1);
    assert_eq!(c.pc, 0x20a);
}

#[test]
fn skips_on_registers_and_bytes() {
    let mut c = machine(&[0x61, 0x07, 0x31, 0x07, 0x00, 0x00, 0x41, 0x07, 0x62, 0x07, 0x51, 0x20], 10);
    run(&mut c, 2);
    assert_eq!(c.pc, 0x206);
    run(&mut c, 1);
    assert_eq!(c.pc, 0x208);
    run(&mut c, 2);
    assert_eq!(c.pc, 0x20e);
}

#[test]
fn tick_counts_timers_down_once_whatever_the_budget() {
    let program = [0x60, 5, 0xf0, 0x15, 0xf0, 0x18, 0x12, 0x06];
    for budget in [1u32, 7, 1000] {
        let mut c = machine(&program, budget);
        run(&mut c, 3);
        assert_eq!(c.dt, 5);
        assert_eq!(c.st, 5);
        assert_eq!(c.tick(), Ok(()));
        assert_eq!(c.dt, 4);
        assert_eq!(c.st, 4);
        assert_eq!(c.tick(), Ok(()));
        assert_eq!(c.dt, 3);
    }
    let mut c = machine(&[0x12, 0x00], 3);
    c.tick();
    assert_eq!(c.dt, 0);
}

#[test]
fn tick_stops_at_draw() {
    let mut c = machine(&[0xd0, 0x01, 0x61, 0x01], 100);
    assert_eq!(c.tick(), Ok(()));
    assert_eq!(c.pc, 0x202);
    assert_eq!(c.v[1], 0);
    assert!(!c.draw_flag);
}

#[test]
fn bcd_and_register_block_copies() {
    let program = [
        0x61, 234, 0xa3, 0x00, 0xf1, 0x33, 0x60, 1, 0x61, 2, 0x62, 3, 0xa3, 0x10, 0xf2, 0x55,
        0x60, 0, 0x61, 0, 0x62, 0, 0xf1, 0x65,
    ];
    let mut c = machine(&program, 10);
    run(&mut c, 3);
    assert_eq!(&c.ram[0x300..0x303], &[2, 3, 4]);
    run(&mut c, 5);
    assert_eq!(&c.ram[0x310..0x314], &[1, 2, 3, 0]);
    run(&mut c, 4);
    assert_eq!(c.v[0], 1);
    assert_eq!(c.v[1], 2);
    assert_eq!(c.v[2], 0);
}

#[test]
fn index_and_timer_loads() {
    let mut c = machine(&[0x62, 0x0a, 0xf2, 0x29, 0x63, 0x07, 0xf3, 0x1e, 0xf3, 0x15, 0xf4, 0x07, 0xb2, 0x0a], 10);
    run(&mut c, 2);
    assert_eq!(c.i, 50);
    run(&mut c, 2);
    assert_eq!(c.i, 57);
    run(&mut c, 2);
    assert_eq!(c.v[4], 7);
    run(&mut c, 1);
    assert_eq!(c.pc, 0x20a);
}

#[test]
fn random_is_masked_by_operand() {
    let mut c = machine(&[0xc1, 0x3c], 10);
    c.step_with(0xf0);
    assert_eq!(c.v[1], 0x30);
    let mut c = machine(&[0xc1, 0x0f], 10);
    c.step();
    assert_eq!(c.v[1] & 0xf0, 0);
}

#[test]
fn image_size_limit() {
    assert!(matches!(Chip8::new(&font(), &vec![0u8; 0xe01], 1), Err(LoadError::ImageTooLarge)));
    let c = Chip8::new(&font(), &vec![0xabu8; 0xe00], 1).ok().unwrap();
    assert_eq!(c.ram[0xfff], 0xab);
    assert_eq!(c.ram[0x1ff], 0);
    assert_eq!(c.ram[0x4f], 0x80);
    assert_eq!(c.pc, 0x200);
}

#[test]
fn keys_are_independent() {
    let mut c = machine(&[], 1);
    c.set_key(3, true);
    c.set_key(15, true);
    assert_eq!(c.keyboard, 0x8008);
    c.set_key(3, false);
    assert_eq!(c.keyboard, 0x8000);
    c.keydown(0x0003);
    c.keyup(0x8001);
    assert_eq!(c.keyboard, 0x0002);
}

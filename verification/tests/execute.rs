use chip8::cpu::OpCode::{
    AddIReg, AddRegByte, AddRegs, AndRegs, Call, Draw, Jump, LdIAddr, LdIDigitReg, LdMemIBcdReg,
    LdMemIRegs, LdRegByte, LdRegReg, LdRegsMemI, RandRegByte, Ret, ShiftRightReg, SkipEqRegBytes,
    SkipNEqRegBytes, SkipRegKeyNPressed, SkipRegKeyPressed,
};
use chip8::cpu::{WrappedRng, CPU};
use rand::rngs::mock::StepRng;

fn create_cpu() -> CPU {
    CPU::new()
}

#[test]
fn execute_add_i_reg() {
    let mut cpu = create_cpu();
    cpu.v[0] = 1;
    cpu.i = 5;
    cpu.execute(AddIReg { reg: 0 }).unwrap();
    assert_eq!(6, cpu.i);
    assert_eq!(0x202, cpu.pc);
}

#[test]
fn execute_add_reg_byte() {
    let mut cpu = create_cpu();
    cpu.v[0] = 0;
    cpu.execute(AddRegByte { reg: 0, val: 16 }).unwrap();
    assert_eq!(16, cpu.v[0]);
    assert_eq!(0x202, cpu.pc);
}

#[test]
fn execute_add_regs_no_overflow() {
    let mut cpu = create_cpu();
    cpu.v[0] = 1;
    cpu.v[5] = 5;
    cpu.execute(AddRegs { reg_x: 0, reg_y: 5 }).unwrap();
    assert_eq!(6, cpu.v[0]);
    assert_eq!(0, cpu.v[0xF]);
    assert_eq!(0x202, cpu.pc);
}

#[test]
fn execute_add_regs_overflow() {
    let mut cpu = create_cpu();
    cpu.v[3] = 1;
    cpu.v[7] = 0xFF;
    cpu.execute(AddRegs { reg_x: 3, reg_y: 7 }).unwrap();
    assert_eq!(0, cpu.v[3]);
    assert_eq!(1, cpu.v[0xF]);
    assert_eq!(0x202, cpu.pc);
}

#[test]
fn execute_and_regs() {
    let mut cpu = create_cpu();
    cpu.v[0] = 0b111;
    cpu.v[1] = 0b101;
    cpu.execute(AndRegs { reg_x: 0, reg_y: 1 }).unwrap();
    assert_eq!(0b101, cpu.v[0]);
    assert_eq!(0b101, cpu.v[1]);
    assert_eq!(0x202, cpu.pc);
}

#[test]
fn execute_call() {
    let mut cpu = create_cpu();
    cpu.sp = 1;
    cpu.pc = 0x112;
    cpu.execute(Call { addr: 0x114 }).unwrap();
    assert_eq!(2, cpu.sp);
    assert_eq!(0x112, cpu.stack[1]);
    assert_eq!(0x114, cpu.pc);
}

#[test]
fn execute_draw_no_collision() {
    let mut cpu = create_cpu();
    cpu.i = 0;
    cpu.v[0] = 4;
    cpu.v[1] = 0;
    cpu.v[0xF] = 1;
    cpu.memory[0] = 0b01110111;
    cpu.frame_buffer[0] = 0b1000;
    cpu.frame_buffer[1] = 0b10000000;

    cpu.execute(Draw {
        reg_x: 0,
        reg_y: 1,
        sprite_bytes: 1,
    })
    .unwrap();

    assert_eq!(0xF, cpu.frame_buffer[0]);
    assert_eq!(0xF0, cpu.frame_buffer[1]);
    assert_eq!(0, cpu.v[0xF]);
    assert_eq!(0x202, cpu.pc);
}

#[test]
fn execute_draw_collision() {
    let mut cpu = create_cpu();
    cpu.i = 0;
    cpu.v[0] = 4;
    cpu.v[1] = 1;
    cpu.v[0xF] = 0;
    cpu.memory[0] = 0b01110111;
    cpu.frame_buffer[8] = 0xF;
    cpu.frame_buffer[9] = 0xF0;

    cpu.execute(Draw {
        reg_x: 0,
        reg_y: 1,
        sprite_bytes: 1,
    })
    .unwrap();

    assert_eq!(0x8, cpu.frame_buffer[8]);
    assert_eq!(0x80, cpu.frame_buffer[9]);
    assert_eq!(1, cpu.v[0xF]);
    assert_eq!(0x202, cpu.pc);
}

#[test]
fn execute_draw_wraparound_horizontal() {
    let mut cpu = create_cpu();
    cpu.i = 0;
    cpu.v[0] = 60;
    cpu.v[1] = 0;
    cpu.v[0xF] = 0;
    cpu.memory[0] = 0xFF;
    cpu.frame_buffer[0] = 0x80;
    cpu.frame_buffer[7] = 0x1;

    cpu.execute(Draw {
        reg_x: 0,
        reg_y: 1,
        sprite_bytes: 1,
    })
    .unwrap();

    assert_eq!(0b1110, cpu.frame_buffer[7]);
    assert_eq!(0b01110000, cpu.frame_buffer[0]);
    assert_eq!(1, cpu.v[0xF]);
    assert_eq!(0x202, cpu.pc);
}

#[test]
fn execute_draw_wraparound_vertical() {
    let mut cpu = create_cpu();
    cpu.i = 0;
    cpu.v[0] = 0;
    cpu.v[1] = 31;
    cpu.memory[0] = 0xFF;
    cpu.memory[1] = 0xFF;

    cpu.execute(Draw {
        reg_x: 0,
        reg_y: 1,
        sprite_bytes: 2,
    })
    .unwrap();

    assert_eq!(0xFF, cpu.frame_buffer[0]);
    assert_eq!(0xFF, cpu.frame_buffer[248]); // beginning of last row, 31*8
    assert_eq!(0, cpu.v[0xF]);
    assert_eq!(0x202, cpu.pc);
}

#[test]
fn execute_ld_i_addr() {
    let mut cpu = create_cpu();
    cpu.execute(LdIAddr { addr: 0x123 }).unwrap();
    assert_eq!(0x123, cpu.i);
    assert_eq!(0x202, cpu.pc);
}

#[test]
fn execute_ld_i_digit_reg() {
    let mut cpu = create_cpu();
    cpu.v[1] = 2;
    cpu.execute(LdIDigitReg { reg: 1 }).unwrap();
    assert_eq!(10, cpu.i);
    assert_eq!(0x202, cpu.pc);
}

#[test]
fn execute_ld_mem_i_bcd_reg() {
    let mut cpu = create_cpu();
    cpu.v[5] = 254;
    cpu.i = 200;
    cpu.execute(LdMemIBcdReg { reg: 5 }).unwrap();
    assert_eq!(2, cpu.memory[200]);
    assert_eq!(5, cpu.memory[201]);
    assert_eq!(4, cpu.memory[202]);
    assert_eq!(0x202, cpu.pc);
}

#[test]
fn execute_ld_mem_i_regs() {
    let mut cpu = create_cpu();
    cpu.i = 0x100;
    cpu.v[0] = 5;
    cpu.v[1] = 6;
    cpu.execute(LdMemIRegs { last_reg: 1 }).unwrap();
    assert_eq!(5, cpu.memory[0x100]);
    assert_eq!(6, cpu.memory[0x101]);
    assert_eq!(0x102, cpu.i);
    assert_eq!(0x202, cpu.pc);
}

#[test]
fn execute_ld_reg_byte() {
    let mut cpu = create_cpu();
    cpu.execute(LdRegByte { reg: 1, val: 0xFF }).unwrap();
    assert_eq!(0xFF, cpu.v[1]);
    assert_eq!(0x202, cpu.pc);
}

#[test]
fn execute_ld_regs_mem_i() {
    let mut cpu = create_cpu();
    cpu.i = 0x100;
    cpu.memory[0x100] = 1;
    cpu.memory[0x101] = 2;
    cpu.memory[0x102] = 3;
    cpu.execute(LdRegsMemI { last_reg: 2 }).unwrap();
    assert_eq!(1, cpu.v[0]);
    assert_eq!(2, cpu.v[1]);
    assert_eq!(3, cpu.v[2]);
    assert_eq!(0x103, cpu.i);
    assert_eq!(0x202, cpu.pc);
}

#[test]
fn execute_ld_reg_reg() {
    let mut cpu = create_cpu();
    cpu.v[0] = 5;
    cpu.v[1] = 6;
    cpu.execute(LdRegReg { reg_x: 0, reg_y: 1 }).unwrap();
    assert_eq!(6, cpu.v[0]);
    assert_eq!(6, cpu.v[1]);
    assert_eq!(0x202, cpu.pc);
}

#[test]
fn execute_jump() {
    let mut cpu = create_cpu();
    cpu.execute(Jump { addr: 0x2e8 }).unwrap();
    assert_eq!(0x2e8, cpu.pc);
}

#[test]
fn execute_rand_reg_byte() {
    let mut cpu = create_cpu();
    // The CPU's RNG will always yield 0xF
    cpu.rng = WrappedRng::Mock(StepRng::new(0xF, 0));
    cpu.execute(RandRegByte { reg: 3, val: 0xAB }).unwrap();
    assert_eq!(0xB, cpu.v[3]);
    assert_eq!(0x202, cpu.pc);
}

#[test]
fn execute_ret() {
    let mut cpu = create_cpu();
    cpu.sp = 1;
    cpu.stack[0] = 0x200;
    cpu.execute(Ret).unwrap();
    assert_eq!(0x202, cpu.pc);
    assert_eq!(0, cpu.sp);
}

#[test]
fn execute_shift_right_reg_set_vf() {
    let mut cpu = create_cpu();
    cpu.v[0] = 0b1111;
    cpu.execute(ShiftRightReg { reg: 0 }).unwrap();
    assert_eq!(0b111, cpu.v[0]);
    assert_eq!(1, cpu.v[0xF]);
    assert_eq!(0x202, cpu.pc);
}

#[test]
fn execute_shift_right_reg_unset_vf() {
    let mut cpu = create_cpu();
    cpu.v[0] = 0b110;
    cpu.v[0xF] = 1;
    cpu.execute(ShiftRightReg { reg: 0 }).unwrap();
    assert_eq!(0b11, cpu.v[0]);
    assert_eq!(0, cpu.v[0xF]);
    assert_eq!(0x202, cpu.pc);
}

#[test]
fn execute_skip_eq_reg_bytes() {
    let mut cpu = create_cpu();
    cpu.v[4] = 16;
    cpu.execute(SkipEqRegBytes { reg: 4, val: 16 }).unwrap();
    assert_eq!(0x204, cpu.pc);

    let mut cpu = create_cpu();
    cpu.v[4] = 14;
    cpu.execute(SkipEqRegBytes { reg: 4, val: 16 }).unwrap();
    assert_eq!(0x202, cpu.pc);
}

#[test]
fn execute_skip_neq_reg_bytes() {
    let mut cpu = create_cpu();
    cpu.v[4] = 16;
    cpu.execute(SkipNEqRegBytes { reg: 4, val: 16 }).unwrap();
    assert_eq!(0x202, cpu.pc);

    let mut cpu = create_cpu();
    cpu.v[4] = 14;
    cpu.execute(SkipNEqRegBytes { reg: 4, val: 16 }).unwrap();
    assert_eq!(0x204, cpu.pc);
}

#[test]
fn execute_skip_reg_key_pressed() {
    let mut cpu = create_cpu();
    cpu.v[4] = 7;
    cpu.key_state[7] = true;
    cpu.execute(SkipRegKeyPressed { reg: 4 }).unwrap();
    assert_eq!(0x204, cpu.pc);

    let mut cpu = create_cpu();
    cpu.v[5] = 6;
    cpu.key_state[6] = false;
    cpu.execute(SkipRegKeyPressed { reg: 5 }).unwrap();
    assert_eq!(0x202, cpu.pc);
}

#[test]
fn execute_skip_reg_key_npressed() {
    let mut cpu = create_cpu();
    cpu.v[4] = 7;
    cpu.key_state[7] = false;
    cpu.execute(SkipRegKeyNPressed { reg: 4 }).unwrap();
    assert_eq!(0x204, cpu.pc);

    let mut cpu = create_cpu();
    cpu.v[5] = 6;
    cpu.key_state[6] = true;
    cpu.execute(SkipRegKeyNPressed { reg: 5 }).unwrap();
    assert_eq!(0x202, cpu.pc);
}

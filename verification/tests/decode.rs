use chip8::cpu::decode::decode_instruction;
use chip8::cpu::OpCode::{
    AddIReg, AddRegByte, AddRegs, AndRegs, Call, Draw, Jump, LdIAddr, LdIDigitReg, LdMemIBcdReg,
    LdMemIRegs, LdRegByte, LdRegKey, LdRegReg, LdRegsMemI, RandRegByte, Ret, ShiftRightReg,
    SkipEqRegBytes, SkipNEqRegBytes, SkipRegKeyNPressed, SkipRegKeyPressed,
};

#[test]
fn decode_add_i_reg() {
    assert_eq!(Ok(AddIReg { reg: 0 }), decode_instruction(&[0xF0, 0x1E]));
}

#[test]
fn decode_add_reg_byte() {
    assert_eq!(
        Ok(AddRegByte { reg: 0, val: 8 }),
        decode_instruction(&[0x70, 0x08])
    );
}

#[test]
fn decode_add_regs() {
    assert_eq!(
        Ok(AddRegs { reg_x: 2, reg_y: 7 }),
        decode_instruction(&[0x82, 0x74])
    );
}

#[test]
fn decode_and_regs() {
    assert_eq!(
        Ok(AndRegs { reg_x: 0, reg_y: 1 }),
        decode_instruction(&[0x80, 0x12])
    );
}

#[test]
fn decode_call() {
    assert_eq!(Ok(Call { addr: 0x123 }), decode_instruction(&[0x21, 0x23]));
}

#[test]
fn decode_draw() {
    assert_eq!(
        Ok(Draw {
            reg_x: 6,
            reg_y: 7,
            sprite_bytes: 5,
        }),
        decode_instruction(&[0xD6, 0x75])
    );
}

#[test]
fn decode_ld_i_addr() {
    assert_eq!(Ok(LdIAddr { addr: 0x123 }), decode_instruction(&[0xA1, 0x23]));
}

#[test]
fn decode_ld_i_digit_reg() {
    assert_eq!(Ok(LdIDigitReg { reg: 0 }), decode_instruction(&[0xF0, 0x29]));
}

#[test]
fn decode_ld_mem_i_bcd_reg() {
    assert_eq!(Ok(LdMemIBcdReg { reg: 5 }), decode_instruction(&[0xF5, 0x33]));
}

#[test]
fn decode_ld_mem_i_regs() {
    assert_eq!(
        Ok(LdMemIRegs { last_reg: 1 }),
        decode_instruction(&[0xF1, 0x55])
    );
}

#[test]
fn decode_ld_reg_byte() {
    assert_eq!(
        Ok(LdRegByte { reg: 1, val: 0xFF }),
        decode_instruction(&[0x61, 0xFF])
    );
}

#[test]
fn decode_ld_reg_key() {
    assert_eq!(Ok(LdRegKey { reg: 5 }), decode_instruction(&[0xF5, 0x0A]));
}

#[test]
fn decode_ld_regs_mem_i() {
    assert_eq!(
        Ok(LdRegsMemI { last_reg: 4 }),
        decode_instruction(&[0xF4, 0x65])
    );
}

#[test]
fn decode_ld_reg_reg() {
    assert_eq!(
        Ok(LdRegReg { reg_x: 0, reg_y: 1 }),
        decode_instruction(&[0x80, 0x10])
    );
}

#[test]
fn decode_jump() {
    assert_eq!(Ok(Jump { addr: 0x500 }), decode_instruction(&[0x15, 0x00]));
}

#[test]
fn decode_rand_reg_byte() {
    assert_eq!(
        Ok(RandRegByte { reg: 5, val: 0x15 }),
        decode_instruction(&[0xC5, 0x15])
    );
}

#[test]
fn decode_ret() {
    assert_eq!(Ok(Ret), decode_instruction(&[0x00, 0xEE]));
}

#[test]
fn decode_shift_right_reg() {
    assert_eq!(Ok(ShiftRightReg { reg: 0 }), decode_instruction(&[0x80, 0x66]));
}

#[test]
fn decode_skip_eq_reg_bytes() {
    assert_eq!(
        Ok(SkipEqRegBytes { reg: 0, val: 0x16 }),
        decode_instruction(&[0x30, 0x16])
    );
}

#[test]
fn decode_skip_neq_reg_bytes() {
    assert_eq!(
        Ok(SkipNEqRegBytes { reg: 0, val: 0x16 }),
        decode_instruction(&[0x40, 0x16])
    );
}

#[test]
fn decode_skip_reg_key_pressed() {
    assert_eq!(
        Ok(SkipRegKeyPressed { reg: 9 }),
        decode_instruction(&[0xE9, 0x9E])
    );
}

#[test]
fn decode_skip_reg_key_npressed() {
    assert_eq!(
        Ok(SkipRegKeyNPressed { reg: 0xC }),
        decode_instruction(&[0xEC, 0xA1])
    );
}

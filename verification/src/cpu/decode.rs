use vstd::prelude::*;

use super::OpCode;
use crate::spec_addr;

verus! {

/// The decoder's failure condition: the 2-byte word matches no documented
/// opcode family. It carries the offending raw 16-bit word.
#[derive(Clone, Copy, Debug, PartialEq, Eq, Structural)]
pub enum DecodeError {
    UnknownOpcode(u16),
}

/// The raw 16-bit instruction word, big-endian.
pub open spec fn spec_word(msb: u8, lsb: u8) -> int {
    msb * 256 + lsb
}

/// The decoding table: a pure, total mapping from a 2-byte instruction word
/// to a structured operation, keyed on the first byte's high nibble and
/// disambiguated by the low nibble or low byte for the overlapping
/// `0x0***`, `0x8**_`, `0xE**_` and `0xF**_` families.
pub open spec fn spec_decode(msb: u8, lsb: u8) -> Result<OpCode, DecodeError> {
    let hi = msb / 16;
    let x = (msb % 16) as usize;
    let y = (lsb / 16) as usize;
    let n = lsb % 16;
    let addr = spec_addr(msb, lsb) as usize;
    let unknown = Result::<OpCode, DecodeError>::Err(
        DecodeError::UnknownOpcode(spec_word(msb, lsb) as u16),
    );
    if msb == 0x00 && lsb == 0xE0 {
        Ok(OpCode::Clear)
    } else if msb == 0x00 && lsb == 0xEE {
        Ok(OpCode::Ret)
    } else if hi == 0x0 {
        Ok(OpCode::Sys)
    } else if hi == 0x1 {
        Ok(OpCode::Jump { addr })
    } else if hi == 0x2 {
        Ok(OpCode::Call { addr })
    } else if hi == 0x3 {
        Ok(OpCode::SkipEqRegBytes { reg: x, val: lsb })
    } else if hi == 0x4 {
        Ok(OpCode::SkipNEqRegBytes { reg: x, val: lsb })
    } else if hi == 0x5 {
        Ok(OpCode::SkipEqRegs { reg_x: x, reg_y: y })
    } else if hi == 0x6 {
        Ok(OpCode::LdRegByte { reg: x, val: lsb })
    } else if hi == 0x7 {
        Ok(OpCode::AddRegByte { reg: x, val: lsb })
    } else if hi == 0x8 {
        if n == 0x0 {
            Ok(OpCode::LdRegReg { reg_x: x, reg_y: y })
        } else if n == 0x1 {
            Ok(OpCode::OrRegs { reg_x: x, reg_y: y })
        } else if n == 0x2 {
            Ok(OpCode::AndRegs { reg_x: x, reg_y: y })
        } else if n == 0x3 {
            Ok(OpCode::XorRegs { reg_x: x, reg_y: y })
        } else if n == 0x4 {
            Ok(OpCode::AddRegs { reg_x: x, reg_y: y })
        } else if n == 0x5 {
            Ok(OpCode::SubRegs { reg_x: x, reg_y: y })
        } else if n == 0x6 {
            Ok(OpCode::ShiftRightReg { reg: x })
        } else if n == 0xE {
            Ok(OpCode::ShiftLeftReg { reg: x })
        } else {
            unknown
        }
    } else if hi == 0x9 {
        Ok(OpCode::SkipNEqRegs { reg_x: x, reg_y: y })
    } else if hi == 0xA {
        Ok(OpCode::LdIAddr { addr })
    } else if hi == 0xC {
        Ok(OpCode::RandRegByte { reg: x, val: lsb })
    } else if hi == 0xD {
        Ok(OpCode::Draw { reg_x: x, reg_y: y, sprite_bytes: n })
    } else if hi == 0xE && lsb == 0x9E {
        Ok(OpCode::SkipRegKeyPressed { reg: x })
    } else if hi == 0xE && lsb == 0xA1 {
        Ok(OpCode::SkipRegKeyNPressed { reg: x })
    } else if hi == 0xF && lsb == 0x07 {
        Ok(OpCode::LdRegDt { reg: x })
    } else if hi == 0xF && lsb == 0x0A {
        Ok(OpCode::LdRegKey { reg: x })
    } else if hi == 0xF && lsb == 0x15 {
        Ok(OpCode::LdDtReg { reg: x })
    } else if hi == 0xF && lsb == 0x1E {
        Ok(OpCode::AddIReg { reg: x })
    } else if hi == 0xF && lsb == 0x29 {
        Ok(OpCode::LdIDigitReg { reg: x })
    } else if hi == 0xF && lsb == 0x33 {
        Ok(OpCode::LdMemIBcdReg { reg: x })
    } else if hi == 0xF && lsb == 0x55 {
        Ok(OpCode::LdMemIRegs { last_reg: x })
    } else if hi == 0xF && lsb == 0x65 {
        Ok(OpCode::LdRegsMemI { last_reg: x })
    } else {
        unknown
    }
}

/// Whatever the decoding table produces is a well-formed operation:
/// register operands are nibbles, addresses are 12 bits.
pub proof fn lemma_decode_wf(msb: u8, lsb: u8)
    ensures
        spec_decode(msb, lsb) matches Ok(op) ==> op.wf(),
{
}

/// Decoding is a pure function of the instruction word: equal byte pairs
/// decode to identical operations (or the identical failure).
pub proof fn lemma_decode_deterministic(m1: u8, l1: u8, m2: u8, l2: u8)
    requires
        m1 == m2,
        l1 == l2,
    ensures
        spec_decode(m1, l1) == spec_decode(m2, l2),
{
}

/// Decodes one 2-byte instruction into its structured operation, or fails
/// with the raw word when it matches no documented opcode family.
pub fn decode_instruction(code: &[u8]) -> (r: Result<OpCode, DecodeError>)
    requires
        code@.len() == 2,
    ensures
        r == spec_decode(code@[0], code@[1]),
        r matches Ok(op) ==> op.wf(),
{
    let msb: u8 = code[0];
    let lsb: u8 = code[1];
    let hi: u8 = msb / 16;
    let x: usize = (msb % 16) as usize;
    let y: usize = (lsb / 16) as usize;
    let n: u8 = lsb % 16;
    let addr: usize = (msb % 16) as usize * 256 + lsb as usize;
    let word: u16 = msb as u16 * 256 + lsb as u16;
    if msb == 0x00 && lsb == 0xE0 {
        Ok(OpCode::Clear)
    } else if msb == 0x00 && lsb == 0xEE {
        Ok(OpCode::Ret)
    } else if hi == 0x0 {
        Ok(OpCode::Sys)
    } else if hi == 0x1 {
        Ok(OpCode::Jump { addr })
    } else if hi == 0x2 {
        Ok(OpCode::Call { addr })
    } else if hi == 0x3 {
        Ok(OpCode::SkipEqRegBytes { reg: x, val: lsb })
    } else if hi == 0x4 {
        Ok(OpCode::SkipNEqRegBytes { reg: x, val: lsb })
    } else if hi == 0x5 {
        Ok(OpCode::SkipEqRegs { reg_x: x, reg_y: y })
    } else if hi == 0x6 {
        Ok(OpCode::LdRegByte { reg: x, val: lsb })
    } else if hi == 0x7 {
        Ok(OpCode::AddRegByte { reg: x, val: lsb })
    } else if hi == 0x8 {
        if n == 0x0 {
            Ok(OpCode::LdRegReg { reg_x: x, reg_y: y })
        } else if n == 0x1 {
            Ok(OpCode::OrRegs { reg_x: x, reg_y: y })
        } else if n == 0x2 {
            Ok(OpCode::AndRegs { reg_x: x, reg_y: y })
        } else if n == 0x3 {
            Ok(OpCode::XorRegs { reg_x: x, reg_y: y })
        } else if n == 0x4 {
            Ok(OpCode::AddRegs { reg_x: x, reg_y: y })
        } else if n == 0x5 {
            Ok(OpCode::SubRegs { reg_x: x, reg_y: y })
        } else if n == 0x6 {
            Ok(OpCode::ShiftRightReg { reg: x })
        } else if n == 0xE {
            Ok(OpCode::ShiftLeftReg { reg: x })
        } else {
            Err(DecodeError::UnknownOpcode(word))
        }
    } else if hi == 0x9 {
        Ok(OpCode::SkipNEqRegs { reg_x: x, reg_y: y })
    } else if hi == 0xA {
        Ok(OpCode::LdIAddr { addr })
    } else if hi == 0xC {
        Ok(OpCode::RandRegByte { reg: x, val: lsb })
    } else if hi == 0xD {
        Ok(OpCode::Draw { reg_x: x, reg_y: y, sprite_bytes: n })
    } else if hi == 0xE && lsb == 0x9E {
        Ok(OpCode::SkipRegKeyPressed { reg: x })
    } else if hi == 0xE && lsb == 0xA1 {
        Ok(OpCode::SkipRegKeyNPressed { reg: x })
    } else if hi == 0xF && lsb == 0x07 {
        Ok(OpCode::LdRegDt { reg: x })
    } else if hi == 0xF && lsb == 0x0A {
        Ok(OpCode::LdRegKey { reg: x })
    } else if hi == 0xF && lsb == 0x15 {
        Ok(OpCode::LdDtReg { reg: x })
    } else if hi == 0xF && lsb == 0x1E {
        Ok(OpCode::AddIReg { reg: x })
    } else if hi == 0xF && lsb == 0x29 {
        Ok(OpCode::LdIDigitReg { reg: x })
    } else if hi == 0xF && lsb == 0x33 {
        Ok(OpCode::LdMemIBcdReg { reg: x })
    } else if hi == 0xF && lsb == 0x55 {
        Ok(OpCode::LdMemIRegs { last_reg: x })
    } else if hi == 0xF && lsb == 0x65 {
        Ok(OpCode::LdRegsMemI { last_reg: x })
    } else {
        Err(DecodeError::UnknownOpcode(word))
    }
}

/// A key of the host keyboard that the input bridge can observe. The CHIP-8
/// keypad does not exist on a normal keyboard, so the 16 keys are taken from
/// the left-hand block:
/// ```text
/// 1234            123C
/// QWER     =>     456D
/// ASDF            789E
/// ZXCV            A0BF
/// ```
/// Every other key is `Unmapped` and is ignored.
#[derive(Clone, Copy, Debug, PartialEq, Eq, Structural)]
pub enum HostKey {
    D1,
    D2,
    D3,
    D4,
    Q,
    W,
    E,
    R,
    A,
    S,
    D,
    F,
    Z,
    X,
    C,
    V,
    Unmapped,
}

/// The fixed lookup table from host keys to the 16 CHIP-8 key codes.
pub open spec fn spec_decode_key(key: HostKey) -> Option<usize> {
    match key {
        HostKey::D1 => Some(1),
        HostKey::D2 => Some(2),
        HostKey::D3 => Some(3),
        HostKey::D4 => Some(0xC),
        HostKey::Q => Some(4),
        HostKey::W => Some(5),
        HostKey::E => Some(6),
        HostKey::R => Some(0xD),
        HostKey::A => Some(7),
        HostKey::S => Some(8),
        HostKey::D => Some(9),
        HostKey::F => Some(0xE),
        HostKey::Z => Some(0xA),
        HostKey::C => Some(0xB),
        HostKey::X => Some(0),
        HostKey::V => Some(0xF),
        HostKey::Unmapped => None,
    }
}

/// Returns the CHIP-8 key code 0x0-0xF of the host key, if it has one.
pub fn decode_key(key: HostKey) -> (r: Option<usize>)
    ensures
        r == spec_decode_key(key),
        r matches Some(code) ==> code < 16,
{
    match key {
        HostKey::D1 => Some(1),
        HostKey::D2 => Some(2),
        HostKey::D3 => Some(3),
        HostKey::D4 => Some(0xC),
        HostKey::Q => Some(4),
        HostKey::W => Some(5),
        HostKey::E => Some(6),
        HostKey::R => Some(0xD),
        HostKey::A => Some(7),
        HostKey::S => Some(8),
        HostKey::D => Some(9),
        HostKey::F => Some(0xE),
        HostKey::Z => Some(0xA),
        HostKey::C => Some(0xB),
        HostKey::X => Some(0),
        HostKey::V => Some(0xF),
        HostKey::Unmapped => None,
    }
}

} // verus!

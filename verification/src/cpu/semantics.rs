use vstd::prelude::*;

use super::{Effect, ExecError, OpCode};

verus! {

/// The mathematical state of the machine: 16 general registers, the index
/// register, the program counter, the 16-entry call stack with its stack
/// pointer, the 4096-byte address space, the 16-key key-state bitmap, the
/// 256-byte (64x32 bit) frame buffer, and the two shared counters.
#[verifier::ext_equal]
pub ghost struct CpuModel {
    pub v: Seq<u8>,
    pub i: int,
    pub pc: int,
    pub stack: Seq<u16>,
    pub sp: int,
    pub memory: Seq<u8>,
    pub keys: Seq<bool>,
    pub fb: Seq<u8>,
    pub delay: u8,
    pub sound: u8,
}

impl CpuModel {
    /// Structural well-formedness: the fixed sizes of the data model, and
    /// the 16-bit range of the two address registers. The stack pointer
    /// never exceeds 16.
    pub open spec fn wf(self) -> bool {
        &&& self.v.len() == 16
        &&& self.stack.len() == 16
        &&& self.memory.len() == 4096
        &&& self.keys.len() == 16
        &&& self.fb.len() == 256
        &&& 0 <= self.i < 0x10000
        &&& 0 <= self.pc < 0x10000
        &&& 0 <= self.sp <= 16
    }
}

/// 16-bit register wraparound: PC and I are 16-bit registers, so arithmetic
/// on them is taken modulo 2^16.
pub open spec fn wrap16(x: int) -> int {
    x % 0x10000
}

/// 8-bit register wraparound.
pub open spec fn wrap8(x: int) -> u8 {
    (x % 256) as u8
}

/// Whether bit `k` (counted from the least significant end) of `b` is set;
/// one frame-buffer bit is one pixel.
pub open spec fn bit_set(b: u8, k: u8) -> bool {
    (b >> k) & 1 == 1
}

/// A collision between an old and a new frame-buffer byte: some pixel
/// transitioned from set to unset. A 0 -> 1 transition is not a collision.
pub open spec fn byte_collision(prev: u8, next: u8) -> bool {
    exists|k: u8| k < 8 && bit_set(prev, k) && !bit_set(next, k)
}

/// The part of a sprite row that lands in the left of its two target bytes:
/// the row shifted right by the bit misalignment `off = x % 8`.
pub open spec fn sprite_hi(s: u8, off: u8) -> u8 {
    s >> off
}

/// The part of a sprite row that spills into the right target byte. A
/// byte-aligned row (`off == 0`) spills nothing.
pub open spec fn sprite_lo(s: u8, off: u8) -> u8 {
    if off == 0 {
        0
    } else {
        s << (8 - off)
    }
}

/// XORs one sprite row `s` into frame buffer `fb` at byte indices `a`
/// (left part) and `b` (right spill), with bit misalignment `off`.
pub open spec fn draw_row(fb: Seq<u8>, s: u8, a: int, b: int, off: u8) -> Seq<u8> {
    let fb1 = fb.update(a, fb[a] ^ sprite_hi(s, off));
    if off == 0 {
        fb1
    } else {
        fb1.update(b, fb1[b] ^ sprite_lo(s, off))
    }
}

/// Whether XOR-ing one sprite row into `fb` extinguishes some pixel.
pub open spec fn row_collides(fb: Seq<u8>, s: u8, a: int, b: int, off: u8) -> bool {
    ||| byte_collision(fb[a], fb[a] ^ sprite_hi(s, off))
    ||| (off != 0 && byte_collision(fb[b], fb[b] ^ sprite_lo(s, off)))
}

/// The frame buffer after the first `k` rows of a sprite blit. Row `r` of
/// the sprite is `mem[loc + r]`; its target bytes are `first + 8*r` and
/// `second + 8*r`, both wrapped modulo the frame buffer's 256 bytes.
pub open spec fn draw_fb(
    fb: Seq<u8>,
    mem: Seq<u8>,
    loc: int,
    k: int,
    first: int,
    second: int,
    off: u8,
) -> Seq<u8>
    decreases k,
{
    if k <= 0 {
        fb
    } else {
        let prev = draw_fb(fb, mem, loc, k - 1, first, second, off);
        draw_row(
            prev,
            mem[loc + (k - 1)],
            (first + (k - 1) * 8) % 256,
            (second + (k - 1) * 8) % 256,
            off,
        )
    }
}

/// Whether any of the first `k` rows of a sprite blit extinguishes a pixel.
pub open spec fn draw_collision(
    fb: Seq<u8>,
    mem: Seq<u8>,
    loc: int,
    k: int,
    first: int,
    second: int,
    off: u8,
) -> bool
    decreases k,
{
    if k <= 0 {
        false
    } else {
        let prev = draw_fb(fb, mem, loc, k - 1, first, second, off);
        ||| draw_collision(fb, mem, loc, k - 1, first, second, off)
        ||| row_collides(
            prev,
            mem[loc + (k - 1)],
            (first + (k - 1) * 8) % 256,
            (second + (k - 1) * 8) % 256,
            off,
        )
    }
}

/// The left target byte of a sprite's first row: 8 bytes per display row,
/// plus the byte that pixel column x falls into.
pub open spec fn draw_first_byte(x: u8, y: u8) -> int {
    y * 8 + x / 8
}

/// The right target byte of a sprite's first row: one past the left byte,
/// wrapped back by 8 to stay within the same display row when the split
/// would cross into the next one.
pub open spec fn draw_second_byte(x: u8, y: u8) -> int {
    let second = draw_first_byte(x, y) + 1;
    if second % 8 == 0 {
        second - 8
    } else {
        second
    }
}

/// Which inputs make an operation fault instead of executing. The machine
/// takes the explicit-error route for range misuse left unchecked by the
/// classic design: call-stack over- and underflow, register-indexed memory
/// accesses past the 4095-byte bound, and a key index beyond the 16 keys.
/// A faulting operation changes nothing.
pub open spec fn spec_fault(m: CpuModel, op: OpCode) -> Option<ExecError> {
    match op {
        OpCode::Call { addr: _ } => if m.sp >= 16 {
            Some(ExecError::StackOverflow)
        } else {
            None
        },
        OpCode::Ret => if m.sp <= 0 {
            Some(ExecError::StackUnderflow)
        } else {
            None
        },
        OpCode::LdMemIBcdReg { reg: _ } => if m.i + 2 > 4095 {
            Some(ExecError::AddressOutOfRange)
        } else {
            None
        },
        OpCode::LdMemIRegs { last_reg } => if m.i + last_reg > 4095 {
            Some(ExecError::AddressOutOfRange)
        } else {
            None
        },
        OpCode::LdRegsMemI { last_reg } => if m.i + last_reg > 4095 {
            Some(ExecError::AddressOutOfRange)
        } else {
            None
        },
        OpCode::Draw { reg_x: _, reg_y: _, sprite_bytes } => if m.i + sprite_bytes > 4096 {
            Some(ExecError::AddressOutOfRange)
        } else {
            None
        },
        OpCode::SkipRegKeyPressed { reg } => if m.v[reg as int] >= 16 {
            Some(ExecError::KeyOutOfRange)
        } else {
            None
        },
        OpCode::SkipRegKeyNPressed { reg } => if m.v[reg as int] >= 16 {
            Some(ExecError::KeyOutOfRange)
        } else {
            None
        },
        _ => None,
    }
}

/// The effect an operation asks of the surrounding loop: `LD Vx,K` suspends
/// execution until the input bridge delivers a key press; everything else
/// proceeds to the next cycle.
pub open spec fn spec_effect(op: OpCode) -> Effect {
    match op {
        OpCode::LdRegKey { reg } => Effect::WaitForKey { reg },
        _ => Effect::Proceed,
    }
}

/// One fault-free step of the execution engine: the full effect of a single
/// operation on the machine state. `rnd` is the byte drawn from the random
/// number generator; only `RND Vx,byte` reads it.
///
/// The default program-counter advance is +2 (each instruction is 2 bytes);
/// branches set an absolute PC, and skips add an extra +2. Where one
/// operation writes a register twice (for example `SUB VF,Vy`), the writes
/// happen in the machine's documented order, the later one winning.
pub open spec fn spec_step(m: CpuModel, op: OpCode, rnd: u8) -> CpuModel {
    let pc2 = wrap16(m.pc + 2);
    let pc4 = wrap16(m.pc + 4);
    match op {
        OpCode::AddIReg { reg } => CpuModel { i: wrap16(m.i + m.v[reg as int]), pc: pc2, ..m },
        OpCode::AddRegByte { reg, val } => CpuModel {
            v: m.v.update(reg as int, wrap8(m.v[reg as int] + val)),
            pc: pc2,
            ..m
        },
        OpCode::AddRegs { reg_x, reg_y } => {
            let sum = m.v[reg_x as int] + m.v[reg_y as int];
            let flag: u8 = if sum > 255 {
                1
            } else {
                0
            };
            CpuModel { v: m.v.update(reg_x as int, wrap8(sum)).update(15, flag), pc: pc2, ..m }
        },
        OpCode::AndRegs { reg_x, reg_y } => CpuModel {
            v: m.v.update(reg_x as int, m.v[reg_x as int] & m.v[reg_y as int]),
            pc: pc2,
            ..m
        },
        OpCode::Call { addr } => CpuModel {
            stack: m.stack.update(m.sp, m.pc as u16),
            sp: m.sp + 1,
            pc: addr as int,
            ..m
        },
        OpCode::Clear => CpuModel { fb: Seq::new(256, |j: int| 0u8), pc: pc2, ..m },
        OpCode::Draw { reg_x, reg_y, sprite_bytes } => {
            let x = m.v[reg_x as int];
            let y = m.v[reg_y as int];
            let off = x % 8;
            let first = draw_first_byte(x, y);
            let second = draw_second_byte(x, y);
            let coll = draw_collision(m.fb, m.memory, m.i, sprite_bytes as int, first, second, off);
            let flag: u8 = if coll {
                1
            } else {
                0
            };
            CpuModel {
                fb: draw_fb(m.fb, m.memory, m.i, sprite_bytes as int, first, second, off),
                v: m.v.update(15, flag),
                pc: pc2,
                ..m
            }
        },
        OpCode::LdDtReg { reg } => CpuModel { delay: m.v[reg as int], pc: pc2, ..m },
        OpCode::LdIAddr { addr } => CpuModel { i: addr as int, pc: pc2, ..m },
        OpCode::LdIDigitReg { reg } => CpuModel { i: 5 * m.v[reg as int], pc: pc2, ..m },
        OpCode::LdMemIBcdReg { reg } => {
            let val = m.v[reg as int];
            CpuModel {
                memory: m.memory.update(m.i, val / 100).update(m.i + 1, val / 10 % 10).update(
                    m.i + 2,
                    val % 10,
                ),
                pc: pc2,
                ..m
            }
        },
        OpCode::LdMemIRegs { last_reg } => CpuModel {
            memory: Seq::new(
                4096,
                |j: int|
                    if m.i <= j <= m.i + last_reg {
                        m.v[j - m.i]
                    } else {
                        m.memory[j]
                    },
            ),
            i: m.i + last_reg + 1,
            pc: pc2,
            ..m
        },
        OpCode::LdRegByte { reg, val } => CpuModel { v: m.v.update(reg as int, val), pc: pc2, ..m },
        OpCode::LdRegDt { reg } => CpuModel { v: m.v.update(reg as int, m.delay), pc: pc2, ..m },
        OpCode::LdRegKey { reg: _ } => CpuModel { pc: pc2, ..m },
        OpCode::LdRegsMemI { last_reg } => CpuModel {
            v: Seq::new(
                16,
                |j: int|
                    if 0 <= j <= last_reg {
                        m.memory[m.i + j]
                    } else {
                        m.v[j]
                    },
            ),
            i: m.i + last_reg + 1,
            pc: pc2,
            ..m
        },
        OpCode::LdRegReg { reg_x, reg_y } => CpuModel {
            v: m.v.update(reg_x as int, m.v[reg_y as int]),
            pc: pc2,
            ..m
        },
        OpCode::Jump { addr } => CpuModel { pc: addr as int, ..m },
        OpCode::OrRegs { reg_x, reg_y } => CpuModel {
            v: m.v.update(reg_x as int, m.v[reg_x as int] | m.v[reg_y as int]),
            pc: pc2,
            ..m
        },
        OpCode::RandRegByte { reg, val } => CpuModel {
            v: m.v.update(reg as int, val & rnd),
            pc: pc2,
            ..m
        },
        OpCode::Ret => CpuModel {
            sp: m.sp - 1,
            pc: wrap16(m.stack[m.sp - 1] + 2),
            ..m
        },
        OpCode::ShiftLeftReg { reg } => {
            let v1 = m.v.update(15, (m.v[reg as int] >> 7) & 1);
            CpuModel { v: v1.update(reg as int, v1[reg as int] << 1), pc: pc2, ..m }
        },
        OpCode::ShiftRightReg { reg } => {
            let v1 = m.v.update(15, m.v[reg as int] & 1);
            CpuModel { v: v1.update(reg as int, v1[reg as int] >> 1), pc: pc2, ..m }
        },
        OpCode::SkipEqRegBytes { reg, val } => CpuModel {
            pc: if m.v[reg as int] == val {
                pc4
            } else {
                pc2
            },
            ..m
        },
        OpCode::SkipEqRegs { reg_x, reg_y } => CpuModel {
            pc: if m.v[reg_x as int] == m.v[reg_y as int] {
                pc4
            } else {
                pc2
            },
            ..m
        },
        OpCode::SkipNEqRegBytes { reg, val } => CpuModel {
            pc: if m.v[reg as int] != val {
                pc4
            } else {
                pc2
            },
            ..m
        },
        OpCode::SkipNEqRegs { reg_x, reg_y } => CpuModel {
            pc: if m.v[reg_x as int] != m.v[reg_y as int] {
                pc4
            } else {
                pc2
            },
            ..m
        },
        OpCode::SkipRegKeyPressed { reg } => CpuModel {
            pc: if m.keys[m.v[reg as int] as int] {
                pc4
            } else {
                pc2
            },
            ..m
        },
        OpCode::SkipRegKeyNPressed { reg } => CpuModel {
            pc: if !m.keys[m.v[reg as int] as int] {
                pc4
            } else {
                pc2
            },
            ..m
        },
        OpCode::SubRegs { reg_x, reg_y } => {
            let flag: u8 = if m.v[reg_x as int] > m.v[reg_y as int] {
                1
            } else {
                0
            };
            let v1 = m.v.update(15, flag);
            CpuModel {
                v: v1.update(reg_x as int, wrap8(v1[reg_x as int] - v1[reg_y as int])),
                pc: pc2,
                ..m
            }
        },
        OpCode::Sys => CpuModel { pc: pc2, ..m },
        OpCode::XorRegs { reg_x, reg_y } => CpuModel {
            v: m.v.update(reg_x as int, m.v[reg_x as int] ^ m.v[reg_y as int]),
            pc: pc2,
            ..m
        },
    }
}

/// One tick of the 60 Hz timer service: a positive counter is decremented
/// by one; a zero counter stays at zero, so the counter never underflows.
pub open spec fn spec_tick(d: u8) -> u8 {
    if d > 0 {
        (d - 1) as u8
    } else {
        0
    }
}

proof fn lemma_mask_bit(p: u8, m: u8, k: u8)
    by (bit_vector)
    requires
        k < 8,
    ensures
        bit_set(p & m, k) <==> (bit_set(p, k) && !bit_set(p ^ m, k)),
{
}

proof fn lemma_nonzero_has_bit(x: u8)
    by (bit_vector)
    requires
        x != 0,
    ensures
        bit_set(x, 0) || bit_set(x, 1) || bit_set(x, 2) || bit_set(x, 3) || bit_set(x, 4) || bit_set(
            x,
            5,
        ) || bit_set(x, 6) || bit_set(x, 7),
{
}

proof fn lemma_bit_nonzero(x: u8, k: u8)
    by (bit_vector)
    requires
        k < 8,
        bit_set(x, k),
    ensures
        x != 0,
{
}

/// The executable collision test: XOR-ing `mask` into a byte `p` of the
/// frame buffer extinguishes some pixel exactly when `p` and `mask` share
/// a set bit.
pub proof fn lemma_collision_mask(p: u8, mask: u8)
    ensures
        byte_collision(p, p ^ mask) <==> ((p & mask) != 0),
{
    if p & mask != 0 {
        lemma_nonzero_has_bit(p & mask);
        let k: u8 = if bit_set(p & mask, 0) {
            0
        } else if bit_set(p & mask, 1) {
            1
        } else if bit_set(p & mask, 2) {
            2
        } else if bit_set(p & mask, 3) {
            3
        } else if bit_set(p & mask, 4) {
            4
        } else if bit_set(p & mask, 5) {
            5
        } else if bit_set(p & mask, 6) {
            6
        } else {
            7
        };
        lemma_mask_bit(p, mask, k);
        assert(k < 8 && bit_set(p, k) && !bit_set(p ^ mask, k));
        assert(byte_collision(p, p ^ mask));
    }
    if byte_collision(p, p ^ mask) {
        let k = choose|k: u8| k < 8 && bit_set(p, k) && !bit_set(p ^ mask, k);
        lemma_mask_bit(p, mask, k);
        lemma_bit_nonzero(p & mask, k);
    }
}

} // verus!

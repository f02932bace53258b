use vstd::prelude::*;

pub mod decode;
pub mod semantics;

verus! {

/// The execution engine's defined faults for the range misuse that the
/// classic machine left unchecked: nesting calls beyond the 16-entry stack,
/// returning with an empty stack, register-indexed memory access past the
/// 4095-byte bound, and a key index beyond the 16 keys. A faulting
/// operation is terminal and leaves the machine state unchanged.
#[derive(Clone, Copy, Debug, PartialEq, Eq, Structural)]
pub enum ExecError {
    StackOverflow,
    StackUnderflow,
    AddressOutOfRange,
    KeyOutOfRange,
}

/// What an executed operation asks of the loop that drives the engine.
/// `LD Vx,K` suspends the loop until the input bridge delivers a key press,
/// which the driver hands back through [`CPU::complete_key_wait`]; every
/// other operation simply proceeds to the next cycle.
#[derive(Clone, Copy, Debug, PartialEq, Eq, Structural)]
pub enum Effect {
    Proceed,
    WaitForKey { reg: usize },
}

/// A decoded, structured instruction ready for execution.
///
/// Register operands (`reg`, `reg_x`, `reg_y`, `last_reg`) index the 16
/// general registers `V0..VF`; the decoder only produces indices below 16.
/// `addr` operands carry the low 12 bits of the instruction word, and
/// `sprite_bytes` a nibble, so both are below 4096 and 16 respectively.
#[derive(Clone, Copy, Debug, PartialEq, Eq, Structural)]
pub enum OpCode {
    /// `ADD I,Vx`: I += Vx (16-bit wraparound, no flag change).
    AddIReg { reg: usize },
    /// `ADD Vx,byte`: Vx += byte, wrapping; VF untouched.
    AddRegByte { reg: usize, val: u8 },
    /// `ADD Vx,Vy`: Vx += Vy, wrapping; VF = 1 on unsigned overflow else 0.
    AddRegs { reg_x: usize, reg_y: usize },
    /// `AND Vx,Vy`.
    AndRegs { reg_x: usize, reg_y: usize },
    /// `CALL addr`: push the current PC, jump to `addr`.
    Call { addr: usize },
    /// `CLS`: zero the frame buffer.
    Clear,
    /// `DRW Vx,Vy,n`: XOR-blit an n-byte sprite from memory[I..] at (Vx,Vy).
    Draw { reg_x: usize, reg_y: usize, sprite_bytes: u8 },
    /// `LD DT,Vx`: write Vx into the shared delay counter.
    LdDtReg { reg: usize },
    /// `LD I,addr`.
    LdIAddr { addr: usize },
    /// `LD I,F(Vx)`: I = 5 * digit value in Vx (font table offset).
    LdIDigitReg { reg: usize },
    /// `LD B,Vx`: store the BCD digits of Vx at memory[I], I+1, I+2.
    LdMemIBcdReg { reg: usize },
    /// `LD [I],Vx..V(last)`: copy registers 0..=last into memory at I; I += last+1.
    LdMemIRegs { last_reg: usize },
    /// `LD Vx,byte`.
    LdRegByte { reg: usize, val: u8 },
    /// `LD Vx,DT`: read the shared delay counter into Vx.
    LdRegDt { reg: usize },
    /// `LD Vx,K`: block until a key press, capture its code into Vx.
    LdRegKey { reg: usize },
    /// `LD Vx..V(last),[I]`: copy memory at I into registers 0..=last; I += last+1.
    LdRegsMemI { last_reg: usize },
    /// `LD Vx,Vy`.
    LdRegReg { reg_x: usize, reg_y: usize },
    /// `JP addr`.
    Jump { addr: usize },
    /// `OR Vx,Vy`.
    OrRegs { reg_x: usize, reg_y: usize },
    /// `RND Vx,byte`: Vx = byte & random byte.
    RandRegByte { reg: usize, val: u8 },
    /// `RET`: pop a return address, PC = address + 2.
    Ret,
    /// `SHL Vx`: VF = bit shifted out, then Vx <<= 1.
    ShiftLeftReg { reg: usize },
    /// `SHR Vx`: VF = bit shifted out, then Vx >>= 1.
    ShiftRightReg { reg: usize },
    /// `SE Vx,byte`: skip the next instruction if Vx == byte.
    SkipEqRegBytes { reg: usize, val: u8 },
    /// `SE Vx,Vy`: skip the next instruction if Vx == Vy.
    SkipEqRegs { reg_x: usize, reg_y: usize },
    /// `SNE Vx,byte`: skip the next instruction if Vx != byte.
    SkipNEqRegBytes { reg: usize, val: u8 },
    /// `SNE Vx,Vy`: skip the next instruction if Vx != Vy.
    SkipNEqRegs { reg_x: usize, reg_y: usize },
    /// `SKP Vx`: skip if the key indexed by Vx is pressed.
    SkipRegKeyPressed { reg: usize },
    /// `SKNP Vx`: skip if the key indexed by Vx is not pressed.
    SkipRegKeyNPressed { reg: usize },
    /// `SUB Vx,Vy`: Vx -= Vy, wrapping; VF = 1 if Vx > Vy before else 0.
    SubRegs { reg_x: usize, reg_y: usize },
    /// `SYS`: ignored.
    Sys,
    /// `XOR Vx,Vy`.
    XorRegs { reg_x: usize, reg_y: usize },
}

impl OpCode {
    /// Every operation the decoder can produce satisfies this: register
    /// operands are valid indices 0-15 by construction (a nibble), addresses
    /// fit in 12 bits, and sprite heights in a nibble.
    pub open spec fn wf(self) -> bool {
        match self {
            OpCode::AddIReg { reg } => reg < 16,
            OpCode::AddRegByte { reg, val: _ } => reg < 16,
            OpCode::AddRegs { reg_x, reg_y } => reg_x < 16 && reg_y < 16,
            OpCode::AndRegs { reg_x, reg_y } => reg_x < 16 && reg_y < 16,
            OpCode::Call { addr } => addr < 4096,
            OpCode::Clear => true,
            OpCode::Draw { reg_x, reg_y, sprite_bytes } => reg_x < 16 && reg_y < 16 && sprite_bytes < 16,
            OpCode::LdDtReg { reg } => reg < 16,
            OpCode::LdIAddr { addr } => addr < 4096,
            OpCode::LdIDigitReg { reg } => reg < 16,
            OpCode::LdMemIBcdReg { reg } => reg < 16,
            OpCode::LdMemIRegs { last_reg } => last_reg < 16,
            OpCode::LdRegByte { reg, val: _ } => reg < 16,
            OpCode::LdRegDt { reg } => reg < 16,
            OpCode::LdRegKey { reg } => reg < 16,
            OpCode::LdRegsMemI { last_reg } => last_reg < 16,
            OpCode::LdRegReg { reg_x, reg_y } => reg_x < 16 && reg_y < 16,
            OpCode::Jump { addr } => addr < 4096,
            OpCode::OrRegs { reg_x, reg_y } => reg_x < 16 && reg_y < 16,
            OpCode::RandRegByte { reg, val: _ } => reg < 16,
            OpCode::Ret => true,
            OpCode::ShiftLeftReg { reg } => reg < 16,
            OpCode::ShiftRightReg { reg } => reg < 16,
            OpCode::SkipEqRegBytes { reg, val: _ } => reg < 16,
            OpCode::SkipEqRegs { reg_x, reg_y } => reg_x < 16 && reg_y < 16,
            OpCode::SkipNEqRegBytes { reg, val: _ } => reg < 16,
            OpCode::SkipNEqRegs { reg_x, reg_y } => reg_x < 16 && reg_y < 16,
            OpCode::SkipRegKeyPressed { reg } => reg < 16,
            OpCode::SkipRegKeyNPressed { reg } => reg < 16,
            OpCode::SubRegs { reg_x, reg_y } => reg_x < 16 && reg_y < 16,
            OpCode::Sys => true,
            OpCode::XorRegs { reg_x, reg_y } => reg_x < 16 && reg_y < 16,
        }
    }
}

/// A fault that ends one fetch-decode-execute cycle: either the word at PC
/// matches no opcode family, or the operation's execution faulted (which
/// includes a PC that runs past the end of memory at fetch time).
#[derive(Clone, Copy, Debug, PartialEq, Eq, Structural)]
pub enum StepError {
    Decode(decode::DecodeError),
    Exec(ExecError),
}

#[verifier::external_type_specification]
#[verifier::external_body]
pub struct ExThreadRng(rand::rngs::ThreadRng);

#[verifier::external_type_specification]
#[verifier::external_body]
pub struct ExStepRng(rand::rngs::mock::StepRng);

/// The random source behind `RND Vx,byte`: the thread-local generator in
/// normal operation, rand's deterministic step generator in tests.
pub enum WrappedRng {
    Standard(rand::rngs::ThreadRng),
    Mock(rand::rngs::mock::StepRng),
}

/// Relies on rand::thread_rng: hands out the thread-local generator.
#[verifier::external_body]
fn fresh_thread_rng() -> rand::rngs::ThreadRng {
    rand::thread_rng()
}

/// Relies on rand::Rng::gen on ThreadRng: draws one byte. Nothing is
/// promised of a random value; callers state what holds of every outcome.
#[verifier::external_body]
fn thread_rng_byte(rng: &mut rand::rngs::ThreadRng) -> u8 {
    rand::Rng::gen(rng)
}

/// Relies on rand::Rng::gen on StepRng: draws one byte of the generator's
/// arithmetic sequence. The engine's contract holds whatever comes back.
#[verifier::external_body]
fn step_rng_byte(rng: &mut rand::rngs::mock::StepRng) -> u8 {
    rand::Rng::gen(rng)
}

impl WrappedRng {
    /// Draws one byte from whichever generator this is.
    fn gen_byte(&mut self) -> u8 {
        match self {
            WrappedRng::Standard(rng) => thread_rng_byte(rng),
            WrappedRng::Mock(rng) => step_rng_byte(rng),
        }
    }
}

/// A vector of `n` copies of `val`.
pub(crate) fn filled_vec<T: Copy>(val: T, n: usize) -> (v: Vec<T>)
    ensures
        v@ == Seq::new(n as nat, |_j: int| val),
{
    let mut v: Vec<T> = Vec::new();
    let mut k: usize = 0;
    while k < n
        invariant
            k <= n,
            v@ == Seq::new(k as nat, |_j: int| val),
        decreases n - k,
    {
        v.push(val);
        k = k + 1;
        assert(v@ =~= Seq::new(k as nat, |_j: int| val));
    }
    v
}

/// The execution engine together with the state it owns: the register file,
/// the address space preloaded with the font table, the call stack, the
/// key-state bitmap, the frame buffer and the two shared counters. The
/// driving loop, the timer service and the renderer live outside and reach
/// this state through the engine's methods.
pub struct CPU {
    // General-purpose registers; always 16 of them
    pub v: Vec<u8>,
    // Memory address register, a 16-bit value
    pub i: usize,
    pub sound_timer: u8,
    // The shared delay counter; the timer service decrements it through
    // `tick_delay_timer`, `LD DT,Vx` writes it, `LD Vx,DT` reads it
    pub delay_timer: u8,
    // Program counter, a 16-bit value
    pub pc: usize,
    // 16 return addresses
    pub stack: Vec<u16>,
    // Stack pointer; never exceeds 16
    pub sp: usize,
    // Address space; always 4096 bytes
    pub memory: Vec<u8>,
    // State of the 16 input keys
    pub key_state: Vec<bool>,
    // 64 (i.e. 8 bytes) by 32 bit graphics buffer
    pub frame_buffer: Vec<u8>,
    // Random number generator used for Rand operations
    pub rng: WrappedRng,
}

impl View for CPU {
    type V = semantics::CpuModel;

    open spec fn view(&self) -> semantics::CpuModel {
        semantics::CpuModel {
            v: self.v@,
            i: self.i as int,
            pc: self.pc as int,
            stack: self.stack@,
            sp: self.sp as int,
            memory: self.memory@,
            keys: self.key_state@,
            fb: self.frame_buffer@,
            delay: self.delay_timer,
            sound: self.sound_timer,
        }
    }
}

/// The machine state at engine construction: all registers and the frame
/// buffer zero, the program counter at the conventional load address 0x200,
/// and the font table at the bottom of the otherwise zeroed address space.
pub open spec fn spec_initial_model() -> semantics::CpuModel {
    semantics::CpuModel {
        v: Seq::new(16, |_j: int| 0u8),
        i: 0,
        pc: 0x200,
        stack: Seq::new(16, |_j: int| 0u16),
        sp: 0,
        memory: crate::digits::spec_digits() + Seq::new(4016, |_j: int| 0u8),
        keys: Seq::new(16, |_j: int| false),
        fb: Seq::new(256, |_j: int| 0u8),
        delay: 0,
        sound: 0,
    }
}

impl CPU {
    /// The machine is structurally well formed; every method keeps it so.
    pub open spec fn wf(&self) -> bool {
        self@.wf()
    }

    /// A fresh machine in its initial state: registers and frame
    /// buffer zeroed, PC at 0x200, the font table preloaded at 0x000.
    pub fn new() -> (cpu: CPU)
        ensures
            cpu.wf(),
            cpu@ == spec_initial_model(),
    {
        let digits: Vec<u8> = crate::digits::digit_sprites();
        let mut memory: Vec<u8> = filled_vec(0u8, 4096);
        let mut k: usize = 0;
        while k < 80
            invariant
                k <= 80,
                digits@ == crate::digits::spec_digits(),
                memory@.len() == 4096,
                forall|j: int| 0 <= j < k ==> memory@[j] == crate::digits::spec_digits()[j],
                forall|j: int| k <= j < 4096 ==> memory@[j] == 0u8,
            decreases 80 - k,
        {
            memory.set(k, digits[k]);
            k = k + 1;
        }
        assert(memory@ =~= crate::digits::spec_digits() + Seq::new(4016, |_j: int| 0u8));
        let cpu = CPU {
            v: filled_vec(0u8, 16),
            i: 0,
            sound_timer: 0,
            delay_timer: 0,
            // Most chip8 programs start at 0x200
            pc: 0x200,
            stack: filled_vec(0u16, 16),
            sp: 0,
            memory,
            key_state: filled_vec(false, 16),
            frame_buffer: filled_vec(0u8, 256),
            rng: WrappedRng::Standard(fresh_thread_rng()),
        };
        proof {
            assert(cpu@ =~= spec_initial_model());
        }
        cpu
    }

    /// Copies a binary program verbatim into memory starting at the
    /// conventional load address 0x200. The caller reads the program file
    /// and hands its bytes here; a program longer than the space above
    /// 0x200 does not fit.
    pub fn load_game_data(&mut self, data: &[u8])
        requires
            old(self).wf(),
            data@.len() <= 4096 - 0x200,
        ensures
            final(self).wf(),
            final(self)@ == (semantics::CpuModel {
                memory: Seq::new(
                    4096,
                    |j: int|
                        if 0x200 <= j < 0x200 + data@.len() {
                            data@[j - 0x200]
                        } else {
                            old(self)@.memory[j]
                        },
                ),
                ..old(self)@
            }),
    {
        let n: usize = data.len();
        let mut k: usize = 0;
        while k < n
            invariant
                k <= n,
                n == data@.len(),
                n <= 4096 - 0x200,
                self.memory@.len() == 4096,
                forall|j: int| 0x200 <= j < 0x200 + k ==> self.memory@[j] == data@[j - 0x200],
                forall|j: int|
                    (0 <= j < 0x200 || 0x200 + k <= j < 4096) ==> self.memory@[j] == old(
                        self,
                    )@.memory[j],
                self.v@ == old(self)@.v,
                self.i == old(self).i,
                self.pc == old(self).pc,
                self.stack@ == old(self)@.stack,
                self.sp == old(self).sp,
                self.key_state@ == old(self)@.keys,
                self.frame_buffer@ == old(self)@.fb,
                self.delay_timer == old(self).delay_timer,
                self.sound_timer == old(self).sound_timer,
            decreases n - k,
        {
            self.memory.set(0x200 + k, data[k]);
            k = k + 1;
        }
        proof {
            assert(self@ =~= (semantics::CpuModel {
                memory: Seq::new(
                    4096,
                    |j: int|
                        if 0x200 <= j < 0x200 + data@.len() {
                            data@[j - 0x200]
                        } else {
                            old(self)@.memory[j]
                        },
                ),
                ..old(self)@
            }));
        }
    }

    /// One press or release notification from the input bridge: mark the
    /// key's entry in the key-state bitmap and touch nothing else.
    pub fn handle_key_event(&mut self, keycode: usize, pressed: bool)
        requires
            old(self).wf(),
            keycode < 16,
        ensures
            final(self).wf(),
            final(self)@ == (semantics::CpuModel {
                keys: old(self)@.keys.update(keycode as int, pressed),
                ..old(self)@
            }),
    {
        self.key_state.set(keycode, pressed);
        proof {
            assert(self@ =~= (semantics::CpuModel {
                keys: old(self)@.keys.update(keycode as int, pressed),
                ..old(self)@
            }));
        }
    }

    /// Completes a `LD Vx,K` wait once the input bridge delivers a press:
    /// the pressed key is marked in the key-state bitmap and its code is
    /// captured into the waiting register.
    pub fn complete_key_wait(&mut self, reg: usize, keycode: usize)
        requires
            old(self).wf(),
            reg < 16,
            keycode < 16,
        ensures
            final(self).wf(),
            final(self)@ == (semantics::CpuModel {
                v: old(self)@.v.update(reg as int, keycode as u8),
                keys: old(self)@.keys.update(keycode as int, true),
                ..old(self)@
            }),
    {
        self.key_state.set(keycode, true);
        self.v.set(reg, keycode as u8);
        proof {
            assert(self@ =~= (semantics::CpuModel {
                v: old(self)@.v.update(reg as int, keycode as u8),
                keys: old(self)@.keys.update(keycode as int, true),
                ..old(self)@
            }));
        }
    }

    /// XOR-blits a `sprite_bytes`-byte sprite from
    /// `memory[sprite_location..]` at pixel (x, y). Each sprite row is
    /// split across two adjacent frame-buffer bytes by the bit misalignment
    /// `x % 8`; both bytes are XORed, never overwritten. Horizontal
    /// wraparound folds the spill byte back within the same display row,
    /// vertical addressing wraps modulo the buffer's 256 bytes. VF is set
    /// to 1 exactly when some pixel transitioned from set to unset, else 0.
    fn draw_sprite(&mut self, sprite_location: usize, sprite_bytes: usize, x: u8, y: u8)
        requires
            old(self).wf(),
            sprite_location + sprite_bytes <= 4096,
        ensures
            final(self).wf(),
            ({
                let m = old(self)@;
                let off = x % 8;
                let first = semantics::draw_first_byte(x, y);
                let second = semantics::draw_second_byte(x, y);
                let coll = semantics::draw_collision(
                    m.fb,
                    m.memory,
                    sprite_location as int,
                    sprite_bytes as int,
                    first,
                    second,
                    off,
                );
                final(self)@ == (semantics::CpuModel {
                    fb: semantics::draw_fb(
                        m.fb,
                        m.memory,
                        sprite_location as int,
                        sprite_bytes as int,
                        first,
                        second,
                        off,
                    ),
                    v: m.v.update(15, if coll { 1u8 } else { 0u8 }),
                    ..m
                })
            }),
    {
        let ghost m = old(self)@;
        let off: u8 = x % 8;
        let first: usize = (y as usize) * 8 + (x as usize) / 8;
        let mut second: usize = first + 1;
        // Wrap around rather than going to the next row
        if second % 8 == 0 {
            second = second - 8;
        }
        let mut collision: bool = false;
        let mut row: usize = 0;
        while row < sprite_bytes
            invariant
                row <= sprite_bytes,
                sprite_location + sprite_bytes <= 4096,
                off == x % 8,
                first as int == semantics::draw_first_byte(x, y),
                second as int == semantics::draw_second_byte(x, y),
                m.wf(),
                self.memory@ == m.memory,
                self.v@ == m.v,
                self.i == m.i,
                self.pc == m.pc,
                self.stack@ == m.stack,
                self.sp == m.sp,
                self.key_state@ == m.keys,
                self.delay_timer == m.delay,
                self.sound_timer == m.sound,
                self.frame_buffer@.len() == 256,
                self.frame_buffer@ == semantics::draw_fb(
                    m.fb,
                    m.memory,
                    sprite_location as int,
                    row as int,
                    first as int,
                    second as int,
                    off,
                ),
                collision == semantics::draw_collision(
                    m.fb,
                    m.memory,
                    sprite_location as int,
                    row as int,
                    first as int,
                    second as int,
                    off,
                ),
            decreases sprite_bytes - row,
        {
            let ghost prev = self.frame_buffer@;
            let s: u8 = self.memory[sprite_location + row];
            let a: usize = (first + row * 8) % 256;
            let b: usize = (second + row * 8) % 256;
            let old_a: u8 = self.frame_buffer[a];
            let old_b: u8 = self.frame_buffer[b];
            let hi: u8 = s >> off;
            let mut row_hit: bool = old_a & hi != 0;
            self.frame_buffer.set(a, old_a ^ hi);
            if off > 0 {
                let lo: u8 = s << (8 - off);
                let cur_b: u8 = self.frame_buffer[b];
                self.frame_buffer.set(b, cur_b ^ lo);
                if old_b & lo != 0 {
                    row_hit = true;
                }
                proof {
                    semantics::lemma_collision_mask(old_b, lo);
                }
            }
            proof {
                semantics::lemma_collision_mask(old_a, hi);
                assert(row_hit == semantics::row_collides(prev, s, a as int, b as int, off));
                assert(self.frame_buffer@ == semantics::draw_row(prev, s, a as int, b as int, off));
            }
            if row_hit {
                collision = true;
            }
            row = row + 1;
            proof {
                assert(self.frame_buffer@ == semantics::draw_fb(
                    m.fb,
                    m.memory,
                    sprite_location as int,
                    row as int,
                    first as int,
                    second as int,
                    off,
                ));
            }
        }
        if collision {
            self.v.set(0xF, 1);
        } else {
            self.v.set(0xF, 0);
        }
        proof {
            let coll = semantics::draw_collision(
                m.fb,
                m.memory,
                sprite_location as int,
                sprite_bytes as int,
                semantics::draw_first_byte(x, y),
                semantics::draw_second_byte(x, y),
                x % 8,
            );
            assert(self@ =~= (semantics::CpuModel {
                fb: semantics::draw_fb(
                    m.fb,
                    m.memory,
                    sprite_location as int,
                    sprite_bytes as int,
                    semantics::draw_first_byte(x, y),
                    semantics::draw_second_byte(x, y),
                    x % 8,
                ),
                v: m.v.update(15, if coll { 1u8 } else { 0u8 }),
                ..m
            }));
        }
    }

    /// Applies one decoded operation to the machine: the per-opcode
    /// semantics of the operation catalogue, with the XOR/collision sprite
    /// compositing and the explicit-fault route for the range misuse the
    /// classic design left unchecked. A faulting operation returns its
    /// fault and changes nothing. On success the returned effect tells the
    /// driving loop whether `LD Vx,K` suspended the engine, and the new
    /// state is exactly one step of the model — for some drawn random byte
    /// that only `RND Vx,byte` reads, and that equals 0 for every other
    /// operation.
    #[verifier::rlimit(100)]
    #[verifier::spinoff_prover]
    pub fn execute(&mut self, op: OpCode) -> (r: Result<Effect, ExecError>)
        requires
            old(self).wf(),
            op.wf(),
        ensures
            final(self).wf(),
            r is Err <==> semantics::spec_fault(old(self)@, op) is Some,
            r matches Err(e) ==> semantics::spec_fault(old(self)@, op) == Some(e) && final(self)@
                == old(self)@,
            r matches Ok(eff) ==> eff == semantics::spec_effect(op) && (exists|b: u8|
                final(self)@ == semantics::spec_step(old(self)@, op, b)),
            (r is Ok && !(op is RandRegByte)) ==> final(self)@ == semantics::spec_step(
                old(self)@,
                op,
                0,
            ),
    {
        let ghost m = self@;
        match op {
            OpCode::AddIReg { reg } => {
                let reg_val: u8 = self.v[reg];
                self.i = (self.i + reg_val as usize) % 0x10000;
                self.pc = (self.pc + 2) % 0x10000;
                proof {
                    assert(self@ =~= semantics::spec_step(m, op, 0));
                }
                Ok(Effect::Proceed)
            },
            OpCode::AddRegByte { reg, val } => {
                self.v.set(reg, self.v[reg].wrapping_add(val));
                self.pc = (self.pc + 2) % 0x10000;
                proof {
                    assert(self@ =~= semantics::spec_step(m, op, 0));
                }
                Ok(Effect::Proceed)
            },
            OpCode::AddRegs { reg_x, reg_y } => {
                let sum: u16 = self.v[reg_x] as u16 + self.v[reg_y] as u16;
                self.v.set(reg_x, (sum % 256) as u8);
                self.v.set(0xF, if sum > 255 { 1 } else { 0 });
                self.pc = (self.pc + 2) % 0x10000;
                proof {
                    assert(self@ =~= semantics::spec_step(m, op, 0));
                }
                Ok(Effect::Proceed)
            },
            OpCode::AndRegs { reg_x, reg_y } => {
                self.v.set(reg_x, self.v[reg_x] & self.v[reg_y]);
                self.pc = (self.pc + 2) % 0x10000;
                proof {
                    assert(self@ =~= semantics::spec_step(m, op, 0));
                }
                Ok(Effect::Proceed)
            },
            OpCode::Call { addr } => {
                if self.sp >= 16 {
                    return Err(ExecError::StackOverflow);
                }
                self.stack.set(self.sp, self.pc as u16);
                self.sp = self.sp + 1;
                self.pc = addr;
                proof {
                    assert(self@ =~= semantics::spec_step(m, op, 0));
                }
                Ok(Effect::Proceed)
            },
            OpCode::Clear => {
                self.frame_buffer = filled_vec(0u8, 256);
                self.pc = (self.pc + 2) % 0x10000;
                proof {
                    assert(self@ =~= semantics::spec_step(m, op, 0));
                }
                Ok(Effect::Proceed)
            },
            OpCode::Draw { reg_x, reg_y, sprite_bytes } => {
                let sb: usize = sprite_bytes as usize;
                if self.i + sb > 4096 {
                    return Err(ExecError::AddressOutOfRange);
                }
                let x: u8 = self.v[reg_x];
                let y: u8 = self.v[reg_y];
                self.draw_sprite(self.i, sb, x, y);
                self.pc = (self.pc + 2) % 0x10000;
                proof {
                    assert(self@ =~= semantics::spec_step(m, op, 0));
                }
                Ok(Effect::Proceed)
            },
            OpCode::LdDtReg { reg } => {
                self.delay_timer = self.v[reg];
                self.pc = (self.pc + 2) % 0x10000;
                proof {
                    assert(self@ =~= semantics::spec_step(m, op, 0));
                }
                Ok(Effect::Proceed)
            },
            OpCode::LdIAddr { addr } => {
                self.i = addr;
                self.pc = (self.pc + 2) % 0x10000;
                proof {
                    assert(self@ =~= semantics::spec_step(m, op, 0));
                }
                Ok(Effect::Proceed)
            },
            OpCode::LdIDigitReg { reg } => {
                let sprite_digit: u8 = self.v[reg];
                self.i = 5 * sprite_digit as usize;
                self.pc = (self.pc + 2) % 0x10000;
                proof {
                    assert(self@ =~= semantics::spec_step(m, op, 0));
                }
                Ok(Effect::Proceed)
            },
            OpCode::LdMemIBcdReg { reg } => {
                if self.i + 2 > 4095 {
                    return Err(ExecError::AddressOutOfRange);
                }
                let reg_val: u8 = self.v[reg];
                self.memory.set(self.i, reg_val / 100);
                self.memory.set(self.i + 1, reg_val / 10 % 10);
                self.memory.set(self.i + 2, reg_val % 10);
                self.pc = (self.pc + 2) % 0x10000;
                proof {
                    assert(self@ =~= semantics::spec_step(m, op, 0));
                }
                Ok(Effect::Proceed)
            },
            OpCode::LdMemIRegs { last_reg } => {
                if self.i + last_reg > 4095 {
                    return Err(ExecError::AddressOutOfRange);
                }
                let mut k: usize = 0;
                while k <= last_reg
                    invariant
                        m.wf(),
                        op == (OpCode::LdMemIRegs { last_reg }),
                        op.wf(),
                        k <= last_reg + 1,
                        m.i + last_reg <= 4095,
                        self.v@ == m.v,
                        self.i == m.i,
                        self.pc == m.pc,
                        self.stack@ == m.stack,
                        self.sp == m.sp,
                        self.key_state@ == m.keys,
                        self.frame_buffer@ == m.fb,
                        self.delay_timer == m.delay,
                        self.sound_timer == m.sound,
                        self.memory@.len() == 4096,
                        forall|j: int|
                            m.i <= j < m.i + k ==> self.memory@[j] == m.v[j - m.i],
                        forall|j: int|
                            (0 <= j < m.i || m.i + k <= j < 4096) ==> self.memory@[j]
                                == m.memory[j],
                    decreases last_reg + 1 - k,
                {
                    self.memory.set(self.i + k, self.v[k]);
                    k = k + 1;
                }
                self.i = self.i + last_reg + 1;
                self.pc = (self.pc + 2) % 0x10000;
                proof {
                    assert(self.memory@ =~= semantics::spec_step(m, op, 0).memory);
                    assert(self@ =~= semantics::spec_step(m, op, 0));
                }
                Ok(Effect::Proceed)
            },
            OpCode::LdRegByte { reg, val } => {
                self.v.set(reg, val);
                self.pc = (self.pc + 2) % 0x10000;
                proof {
                    assert(self@ =~= semantics::spec_step(m, op, 0));
                }
                Ok(Effect::Proceed)
            },
            OpCode::LdRegDt { reg } => {
                self.v.set(reg, self.delay_timer);
                self.pc = (self.pc + 2) % 0x10000;
                proof {
                    assert(self@ =~= semantics::spec_step(m, op, 0));
                }
                Ok(Effect::Proceed)
            },
            OpCode::LdRegKey { reg } => {
                // The wait itself happens outside: the driving loop blocks
                // on the input bridge and hands the press back through
                // `complete_key_wait`.
                self.pc = (self.pc + 2) % 0x10000;
                proof {
                    assert(self@ =~= semantics::spec_step(m, op, 0));
                }
                Ok(Effect::WaitForKey { reg })
            },
            OpCode::LdRegsMemI { last_reg } => {
                if self.i + last_reg > 4095 {
                    return Err(ExecError::AddressOutOfRange);
                }
                let mut k: usize = 0;
                while k <= last_reg
                    invariant
                        m.wf(),
                        op == (OpCode::LdRegsMemI { last_reg }),
                        op.wf(),
                        k <= last_reg + 1,
                        m.i + last_reg <= 4095,
                        self.memory@ == m.memory,
                        self.i == m.i,
                        self.pc == m.pc,
                        self.stack@ == m.stack,
                        self.sp == m.sp,
                        self.key_state@ == m.keys,
                        self.frame_buffer@ == m.fb,
                        self.delay_timer == m.delay,
                        self.sound_timer == m.sound,
                        self.v@.len() == 16,
                        forall|j: int| 0 <= j < k ==> self.v@[j] == m.memory[m.i + j],
                        forall|j: int| k <= j < 16 ==> self.v@[j] == m.v[j],
                    decreases last_reg + 1 - k,
                {
                    self.v.set(k, self.memory[self.i + k]);
                    k = k + 1;
                }
                self.i = self.i + last_reg + 1;
                self.pc = (self.pc + 2) % 0x10000;
                proof {
                    assert(self.v@ =~= semantics::spec_step(m, op, 0).v);
                    assert(self@ =~= semantics::spec_step(m, op, 0));
                }
                Ok(Effect::Proceed)
            },
            OpCode::LdRegReg { reg_x, reg_y } => {
                self.v.set(reg_x, self.v[reg_y]);
                self.pc = (self.pc + 2) % 0x10000;
                proof {
                    assert(self@ =~= semantics::spec_step(m, op, 0));
                }
                Ok(Effect::Proceed)
            },
            OpCode::Jump { addr } => {
                self.pc = addr;
                proof {
                    assert(self@ =~= semantics::spec_step(m, op, 0));
                }
                Ok(Effect::Proceed)
            },
            OpCode::OrRegs { reg_x, reg_y } => {
                self.v.set(reg_x, self.v[reg_x] | self.v[reg_y]);
                self.pc = (self.pc + 2) % 0x10000;
                proof {
                    assert(self@ =~= semantics::spec_step(m, op, 0));
                }
                Ok(Effect::Proceed)
            },
            OpCode::RandRegByte { reg, val } => {
                let rand_val: u8 = self.rng.gen_byte();
                self.v.set(reg, val & rand_val);
                self.pc = (self.pc + 2) % 0x10000;
                proof {
                    assert(self@ =~= semantics::spec_step(m, op, rand_val));
                }
                Ok(Effect::Proceed)
            },
            OpCode::Ret => {
                if self.sp == 0 {
                    return Err(ExecError::StackUnderflow);
                }
                self.sp = self.sp - 1;
                self.pc = (self.stack[self.sp] as usize + 2) % 0x10000;
                proof {
                    assert(self@ =~= semantics::spec_step(m, op, 0));
                }
                Ok(Effect::Proceed)
            },
            OpCode::ShiftLeftReg { reg } => {
                self.v.set(0xF, (self.v[reg] >> 7) & 1);
                self.v.set(reg, self.v[reg] << 1);
                self.pc = (self.pc + 2) % 0x10000;
                proof {
                    assert(self@ =~= semantics::spec_step(m, op, 0));
                }
                Ok(Effect::Proceed)
            },
            OpCode::ShiftRightReg { reg } => {
                self.v.set(0xF, self.v[reg] & 1);
                self.v.set(reg, self.v[reg] >> 1);
                self.pc = (self.pc + 2) % 0x10000;
                proof {
                    assert(self@ =~= semantics::spec_step(m, op, 0));
                }
                Ok(Effect::Proceed)
            },
            OpCode::SkipEqRegBytes { reg, val } => {
                if self.v[reg] == val {
                    self.pc = (self.pc + 4) % 0x10000;
                } else {
                    self.pc = (self.pc + 2) % 0x10000;
                }
                proof {
                    assert(self@ =~= semantics::spec_step(m, op, 0));
                }
                Ok(Effect::Proceed)
            },
            OpCode::SkipEqRegs { reg_x, reg_y } => {
                if self.v[reg_x] == self.v[reg_y] {
                    self.pc = (self.pc + 4) % 0x10000;
                } else {
                    self.pc = (self.pc + 2) % 0x10000;
                }
                proof {
                    assert(self@ =~= semantics::spec_step(m, op, 0));
                }
                Ok(Effect::Proceed)
            },
            OpCode::SkipNEqRegBytes { reg, val } => {
                if self.v[reg] != val {
                    self.pc = (self.pc + 4) % 0x10000;
                } else {
                    self.pc = (self.pc + 2) % 0x10000;
                }
                proof {
                    assert(self@ =~= semantics::spec_step(m, op, 0));
                }
                Ok(Effect::Proceed)
            },
            OpCode::SkipNEqRegs { reg_x, reg_y } => {
                if self.v[reg_x] != self.v[reg_y] {
                    self.pc = (self.pc + 4) % 0x10000;
                } else {
                    self.pc = (self.pc + 2) % 0x10000;
                }
                proof {
                    assert(self@ =~= semantics::spec_step(m, op, 0));
                }
                Ok(Effect::Proceed)
            },
            OpCode::SkipRegKeyPressed { reg } => {
                let key: u8 = self.v[reg];
                if key >= 16 {
                    return Err(ExecError::KeyOutOfRange);
                }
                if self.key_state[key as usize] {
                    self.pc = (self.pc + 4) % 0x10000;
                } else {
                    self.pc = (self.pc + 2) % 0x10000;
                }
                proof {
                    assert(self@ =~= semantics::spec_step(m, op, 0));
                }
                Ok(Effect::Proceed)
            },
            OpCode::SkipRegKeyNPressed { reg } => {
                let key: u8 = self.v[reg];
                if key >= 16 {
                    return Err(ExecError::KeyOutOfRange);
                }
                if !self.key_state[key as usize] {
                    self.pc = (self.pc + 4) % 0x10000;
                } else {
                    self.pc = (self.pc + 2) % 0x10000;
                }
                proof {
                    assert(self@ =~= semantics::spec_step(m, op, 0));
                }
                Ok(Effect::Proceed)
            },
            OpCode::SubRegs { reg_x, reg_y } => {
                self.v.set(0xF, if self.v[reg_x] > self.v[reg_y] { 1 } else { 0 });
                self.v.set(reg_x, self.v[reg_x].wrapping_sub(self.v[reg_y]));
                self.pc = (self.pc + 2) % 0x10000;
                proof {
                    assert(self@ =~= semantics::spec_step(m, op, 0));
                }
                Ok(Effect::Proceed)
            },
            OpCode::Sys => {
                self.pc = (self.pc + 2) % 0x10000;
                proof {
                    assert(self@ =~= semantics::spec_step(m, op, 0));
                }
                Ok(Effect::Proceed)
            },
            OpCode::XorRegs { reg_x, reg_y } => {
                self.v.set(reg_x, self.v[reg_x] ^ self.v[reg_y]);
                self.pc = (self.pc + 2) % 0x10000;
                proof {
                    assert(self@ =~= semantics::spec_step(m, op, 0));
                }
                Ok(Effect::Proceed)
            },
        }
    }

    /// One full fetch-decode-execute cycle: read the 2-byte word at PC,
    /// decode it, execute the operation. A terminal fault — a PC that runs
    /// past the end of memory, an unknown opcode, or an execution fault —
    /// is returned and leaves the machine unchanged.
    pub fn step(&mut self) -> (r: Result<Effect, StepError>)
        requires
            old(self).wf(),
        ensures
            final(self).wf(),
            ({
                let m = old(self)@;
                if m.pc + 2 > 4096 {
                    r == Err::<Effect, StepError>(StepError::Exec(ExecError::AddressOutOfRange))
                        && final(self)@ == m
                } else {
                    match decode::spec_decode(m.memory[m.pc], m.memory[m.pc + 1]) {
                        Err(e) => r == Err::<Effect, StepError>(StepError::Decode(e))
                            && final(self)@ == m,
                        Ok(op) => match semantics::spec_fault(m, op) {
                            Some(e) => r == Err::<Effect, StepError>(StepError::Exec(e))
                                && final(self)@ == m,
                            None => r matches Ok(eff) && eff == semantics::spec_effect(op) && (
                            exists|b: u8| final(self)@ == semantics::spec_step(m, op, b)),
                        },
                    }
                }
            }),
    {
        if self.pc + 2 > 4096 {
            return Err(StepError::Exec(ExecError::AddressOutOfRange));
        }
        let code: [u8; 2] = [self.memory[self.pc], self.memory[self.pc + 1]];
        let instr: OpCode = match decode::decode_instruction(code.as_slice()) {
            Ok(op) => op,
            Err(e) => {
                return Err(StepError::Decode(e));
            },
        };
        match self.execute(instr) {
            Ok(eff) => Ok(eff),
            Err(e) => Err(StepError::Exec(e)),
        }
    }

    /// One tick of the 60 Hz timer service on the shared delay counter: a
    /// positive counter is decremented, a zero counter stays at zero. The
    /// counter never underflows, whatever the tick rate.
    pub fn tick_delay_timer(&mut self)
        requires
            old(self).wf(),
        ensures
            final(self).wf(),
            final(self)@ == (semantics::CpuModel {
                delay: semantics::spec_tick(old(self)@.delay),
                ..old(self)@
            }),
    {
        if self.delay_timer > 0 {
            self.delay_timer = self.delay_timer - 1;
        }
        proof {
            assert(self@ =~= (semantics::CpuModel {
                delay: semantics::spec_tick(old(self)@.delay),
                ..old(self)@
            }));
        }
    }
}

} // verus!

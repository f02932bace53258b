use vstd::prelude::*;

pub mod cpu;
pub mod digits;

use crate::cpu::decode::spec_decode;
use crate::cpu::semantics::{spec_effect, spec_fault, spec_step, CpuModel};
use crate::cpu::{spec_initial_model, Effect, ExecError, StepError, CPU};

verus! {

/// The low 12 bits of a 2-byte instruction word, interpreted as a memory
/// address: the low nibble of the first byte forms the high bits.
pub open spec fn spec_addr(msb: u8, lsb: u8) -> int {
    (msb % 16) * 256 + lsb
}

/// Extracts the least significant 12 bits out of the two bytes representing a
/// memory address (possibly part of an instruction).
pub fn extract_addr(msb: &u8, lsb: &u8) -> (addr: u16)
    ensures
        addr == spec_addr(*msb, *lsb),
{
    let m: u8 = *msb;
    let l: u8 = *lsb;
    let addr: u16 = (l as u16) | (((m as u16) & 0x0F) << 8);
    proof {
        assert((l as u16) | (((m as u16) & 0x0F) << 8) == ((m % 16) * 256 + l as u16) as u16)
            by (bit_vector);
    }
    addr
}

/// Whether the bit at index `bit_index` (from least significant) of `byte`
/// is set. The renderer maps bit `b` of frame-buffer byte `i` to the pixel
/// at column `(i % 8) * 8 + (7 - b)` of row `i / 8`.
pub fn bit_is_set(byte: u8, bit_index: u8) -> (r: bool)
    requires
        bit_index < 8,
    ensures
        r == crate::cpu::semantics::bit_set(byte, bit_index),
{
    let r: bool = byte & (1u8 << bit_index) > 0;
    proof {
        assert((byte & (1u8 << bit_index) > 0) == ((byte >> bit_index) & 1 == 1)) by (bit_vector)
            requires
                bit_index < 8,
        ;
    }
    r
}

/// How a bounded run of the engine ended.
#[derive(Clone, Copy, Debug, PartialEq, Eq, Structural)]
pub enum RunOutcome {
    /// The cycle budget was spent; every cycle proceeded without fault.
    Completed,
    /// A terminal fault — a PC past the end of memory, an unknown opcode,
    /// or an execution fault — stopped the machine in place.
    Stopped(StepError),
    /// The shutdown flag was observed at the top of a cycle; the machine
    /// stopped promptly, with no partial instruction applied.
    ShutDown,
    /// `LD Vx,K` suspended the engine; the caller must deliver a key press
    /// (through the machine's `complete_key_wait`) before running on.
    WaitingForKey { reg: usize },
}

/// One fault-free fetch-decode-execute cycle takes `m1` to `m2` and asks
/// `eff` of the surrounding loop, for some drawn random byte.
pub open spec fn one_cycle(m1: CpuModel, m2: CpuModel, eff: Effect) -> bool {
    &&& m1.pc + 2 <= 4096
    &&& (spec_decode(m1.memory[m1.pc], m1.memory[m1.pc + 1]) matches Ok(op) && spec_fault(m1, op)
        is None && spec_effect(op) == eff && (exists|b: u8| m2 == spec_step(m1, op, b)))
}

/// `m2` is reachable from `m1` by exactly `k` fault-free cycles, none of
/// which suspends on a key wait: one operation applied whole per cycle.
pub open spec fn proceeds_to(m1: CpuModel, m2: CpuModel, k: nat) -> bool
    decreases k,
{
    if k == 0 {
        m1 == m2
    } else {
        exists|mid: CpuModel|
            one_cycle(m1, mid, Effect::Proceed) && proceeds_to(mid, m2, (k - 1) as nat)
    }
}

/// The terminal fault of a machine state: why no further cycle can run
/// from it. `None` means the next cycle is fault-free.
pub open spec fn spec_stuck(m: CpuModel) -> Option<StepError> {
    if m.pc + 2 > 4096 {
        Some(StepError::Exec(ExecError::AddressOutOfRange))
    } else {
        match spec_decode(m.memory[m.pc], m.memory[m.pc + 1]) {
            Err(e) => Some(StepError::Decode(e)),
            Ok(op) => match spec_fault(m, op) {
                Some(e) => Some(StepError::Exec(e)),
                None => None,
            },
        }
    }
}

/// Appending one proceeding cycle to a chain of `k` cycles extends it.
proof fn lemma_proceeds_snoc(m1: CpuModel, m2: CpuModel, m3: CpuModel, k: nat)
    requires
        proceeds_to(m1, m2, k),
        one_cycle(m2, m3, Effect::Proceed),
    ensures
        proceeds_to(m1, m3, k + 1),
    decreases k,
{
    if k == 0 {
        assert(proceeds_to(m3, m3, 0));
        assert(one_cycle(m1, m3, Effect::Proceed));
        assert(proceeds_to(m1, m3, 1));
    } else {
        let mid = choose|mid: CpuModel|
            one_cycle(m1, mid, Effect::Proceed) && proceeds_to(mid, m2, (k - 1) as nat);
        lemma_proceeds_snoc(mid, m2, m3, (k - 1) as nat);
        assert(proceeds_to(m1, m3, k + 1));
    }
}

/// A headless driver around the execution engine: it owns one machine,
/// loads a program into it, and runs bounded bursts of fetch-decode-execute
/// cycles, observing the one-shot shutdown flag at the top of every cycle.
pub struct Chip8 {
    /// The machine this driver runs; its input bridge (`handle_key_event`,
    /// `complete_key_wait`) and its timer tick are reached here.
    pub cpu: CPU,
}

impl View for Chip8 {
    type V = CpuModel;

    open spec fn view(&self) -> CpuModel {
        self.cpu@
    }
}

impl Chip8 {
    /// The machine is structurally well formed; every method keeps it so.
    pub open spec fn wf(&self) -> bool {
        self@.wf()
    }

    /// A fresh machine in its initial state: registers and frame buffer
    /// zeroed, PC at the conventional load address 0x200, and the font
    /// table preloaded at the bottom of the address space.
    pub fn new() -> (chip: Chip8)
        ensures
            chip.wf(),
            chip@ == spec_initial_model(),
    {
        Chip8 { cpu: CPU::new() }
    }

    /// Copies a binary program verbatim into memory starting at the
    /// conventional load address 0x200; the caller reads the program file
    /// and hands its bytes here.
    pub fn load_game_data(&mut self, data: &[u8])
        requires
            old(self).wf(),
            data@.len() <= 4096 - 0x200,
        ensures
            final(self).wf(),
            final(self)@ == (CpuModel {
                memory: Seq::new(
                    4096,
                    |j: int|
                        if 0x200 <= j < 0x200 + data@.len() {
                            data@[j - 0x200]
                        } else {
                            old(self)@.memory[j]
                        },
                ),
                ..old(self)@
            }),
    {
        self.cpu.load_game_data(data);
    }

    /// Runs fetch-decode-execute cycles until the budget is spent, a
    /// terminal fault stops the machine in place, the engine suspends on
    /// `LD Vx,K`, or the shutdown flag is observed at the top of a cycle.
    /// Each cycle applies exactly one operation whole: shutdown and
    /// suspension leave no partial instruction behind.
    pub fn run(&mut self, cycles: usize, shutdown: &std::sync::atomic::AtomicBool) -> (r:
        RunOutcome)
        requires
            old(self).wf(),
        ensures
            final(self).wf(),
            r == RunOutcome::Completed ==> proceeds_to(
                old(self)@,
                final(self)@,
                cycles as nat,
            ),
            r matches RunOutcome::Stopped(e) ==> (exists|k: nat|
                k < cycles && proceeds_to(old(self)@, final(self)@, k)) && spec_stuck(
                final(self)@,
            ) == Some(e),
            r == RunOutcome::ShutDown ==> exists|k: nat|
                k <= cycles && proceeds_to(old(self)@, final(self)@, k),
            r matches RunOutcome::WaitingForKey { reg } ==> reg < 16 && (exists|
                k: nat,
                mid: CpuModel,
            |
                k < cycles && proceeds_to(old(self)@, mid, k) && one_cycle(
                    mid,
                    final(self)@,
                    Effect::WaitForKey { reg },
                )),
    {
        let mut k: usize = 0;
        while k < cycles
            invariant
                k <= cycles,
                self.wf(),
                proceeds_to(old(self)@, self@, k as nat),
            decreases cycles - k,
        {
            if shutdown.load(std::sync::atomic::Ordering::SeqCst) {
                return RunOutcome::ShutDown;
            }
            let ghost prev = self@;
            match self.cpu.step() {
                Ok(Effect::Proceed) => {
                    proof {
                        assert(one_cycle(prev, self@, Effect::Proceed));
                        lemma_proceeds_snoc(old(self)@, prev, self@, k as nat);
                    }
                    k = k + 1;
                },
                Ok(Effect::WaitForKey { reg }) => {
                    proof {
                        crate::cpu::decode::lemma_decode_wf(
                            prev.memory[prev.pc],
                            prev.memory[prev.pc + 1],
                        );
                        assert(one_cycle(prev, self@, Effect::WaitForKey { reg }));
                    }
                    return RunOutcome::WaitingForKey { reg };
                },
                Err(e) => {
                    return RunOutcome::Stopped(e);
                },
            }
        }
        RunOutcome::Completed
    }

    /// The value of general register `reg`.
    pub fn get_reg_val(&mut self, reg: u8) -> (r: u8)
        requires
            old(self).wf(),
            reg < 16,
        ensures
            *final(self) == *old(self),
            r == old(self)@.v[reg as int],
    {
        return self.cpu.v[reg as usize];
    }
}

} // verus!

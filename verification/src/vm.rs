use vstd::prelude::*;

use crate::instruction::{opcode_of_byte, Opcode};

verus! {

/// A fatal runtime condition: it halts execution and is reported with the
/// program counter of the faulting instruction.
#[derive(Debug, Clone, Copy, PartialEq, Eq, Structural)]
pub enum FaultKind {
    /// A divide instruction met a zero divisor.
    DivideByZero,
    /// An instruction referenced a register index at or past 32.
    RegisterIndexOutOfRange,
    /// Heap-allocate was asked for a negative length.
    HeapAccessOutOfRange,
    /// An instruction ran past the end of the bytecode buffer, or a jump
    /// target cannot be a program counter.
    ProgramCounterOutOfRange,
    /// A backward-relative jump whose computed counter would go negative.
    BackwardJumpUnderflow,
    /// The opcode byte has no assigned opcode (distinct from the real
    /// no-op, so corrupted bytecode is diagnosable).
    UnmappedOpcode,
}

/// Why a run ended.
#[derive(Debug, Clone, Copy, PartialEq, Eq, Structural)]
pub enum RunOutcome {
    /// An explicit halt, the no-op, or a reserved opcode stopped the loop.
    Halted,
    /// A fault at the instruction that begins at byte offset `at`.
    Faulted { kind: FaultKind, at: usize },
    /// The program counter reached the end of the bytecode buffer.
    Exhausted,
}

/// The mathematical state of the machine: register file, bytecode image,
/// heap, program counter, remainder register and comparison flag.
#[verifier::ext_equal]
pub struct VmModel {
    pub regs: Seq<i32>,
    pub code: Seq<u8>,
    pub heap: Seq<u8>,
    pub pc: usize,
    pub rem: u32,
    pub flag: bool,
}

/// The state a fresh machine starts in: 32 zeroed registers, no bytecode,
/// an empty heap, and cleared counter, remainder and flag.
pub open spec fn spec_initial_vm() -> VmModel {
    VmModel {
        regs: Seq::new(32, |i: int| 0i32),
        code: Seq::<u8>::empty(),
        heap: Seq::<u8>::empty(),
        pc: 0,
        rem: 0,
        flag: false,
    }
}

/// The heap after resizing to `n`: cut at `n`, or extended with zero fill.
pub open spec fn spec_resize(h: Seq<u8>, n: int) -> Seq<u8> {
    if n <= h.len() {
        h.take(n)
    } else {
        h + Seq::new((n - h.len()) as nat, |j: int| 0u8)
    }
}

/// The truncating quotient written by a divide, with the lone overflowing
/// case (`i32::MIN / -1`) wrapping back to `i32::MIN`.
pub open spec fn spec_div_quotient(a: i32, d: i32) -> i32 {
    match a.checked_div(d) {
        Some(q) => q,
        None => i32::MIN,
    }
}

/// The truncating remainder of a divide (zero in the overflowing case),
/// before its reinterpretation as an unsigned register value.
pub open spec fn spec_div_remainder(a: i32, d: i32) -> i32 {
    match a.checked_rem(d) {
        Some(r) => r,
        None => 0,
    }
}

/// A negative truncating remainder is held in the unsigned remainder
/// register by its two's-complement bit pattern.
pub open spec fn spec_rem_as_u32(r: i32) -> u32 {
    if r < 0 {
        (r + 0x1_0000_0000) as u32
    } else {
        r as u32
    }
}

pub open spec fn spec_fault(m: VmModel, k: FaultKind) -> (VmModel, Option<RunOutcome>) {
    (m, Some(RunOutcome::Faulted { kind: k, at: m.pc }))
}

/// One fetch-decode-dispatch cycle on the machine model.
///
/// The cycle reads the opcode byte at the program counter and dispatches.
/// Stopping opcodes (halt, no-op, reserved) consume the opcode byte alone.
/// Every other opcode requires its full 4-byte encoded form inside the
/// buffer and consumes exactly that stride, so the counter lands on the
/// next opcode boundary; jumps replace the counter instead.  All bound
/// checks precede every state change, so a faulting cycle leaves the
/// machine exactly as it found it and reports the fault with the
/// instruction's starting offset.
pub open spec fn spec_step(m: VmModel) -> (VmModel, Option<RunOutcome>) {
    if m.pc >= m.code.len() {
        (m, Some(RunOutcome::Exhausted))
    } else {
        let base = m.pc as int;
        match opcode_of_byte(m.code[base]) {
            None => spec_fault(m, FaultKind::UnmappedOpcode),
            Some(op) => spec_step_op(m, op),
        }
    }
}

/// The dispatch table of `spec_step`, for an opcode already fetched.
pub open spec fn spec_step_op(m: VmModel, op: Opcode) -> (VmModel, Option<RunOutcome>) {
    let base = m.pc as int;
    match op {
        Opcode::HLT | Opcode::NOP | Opcode::RSHT | Opcode::LFST | Opcode::RROR | Opcode::LROR => (
            VmModel { pc: (base + 1) as usize, ..m },
            Some(RunOutcome::Halted),
        ),
        _ => {
            if m.code.len() - base < 4 {
                spec_fault(m, FaultKind::ProgramCounterOutOfRange)
            } else {
                let b1 = m.code[base + 1];
                let b2 = m.code[base + 2];
                let b3 = m.code[base + 3];
                match op {
                    Opcode::LOAD => {
                        if b1 >= 32 {
                            spec_fault(m, FaultKind::RegisterIndexOutOfRange)
                        } else {
                            (
                                VmModel {
                                    regs: m.regs.update(b1 as int, (b2 * 256 + b3) as i32),
                                    pc: (base + 4) as usize,
                                    ..m
                                },
                                None,
                            )
                        }
                    },
                    Opcode::ADD | Opcode::SUB | Opcode::MUL => {
                        if b1 >= 32 || b2 >= 32 || b3 >= 32 {
                            spec_fault(m, FaultKind::RegisterIndexOutOfRange)
                        } else {
                            let a = m.regs[b1 as int];
                            let b = m.regs[b2 as int];
                            let v = match op {
                                Opcode::ADD => vstd::wrapping::i32_specs::wrapping_add(a, b),
                                Opcode::SUB => vstd::wrapping::i32_specs::wrapping_sub(a, b),
                                _ => vstd::wrapping::i32_specs::wrapping_mul(a, b),
                            };
                            (
                                VmModel {
                                    regs: m.regs.update(b3 as int, v),
                                    pc: (base + 4) as usize,
                                    ..m
                                },
                                None,
                            )
                        }
                    },
                    Opcode::DIV => {
                        if b1 >= 32 || b2 >= 32 || b3 >= 32 {
                            spec_fault(m, FaultKind::RegisterIndexOutOfRange)
                        } else {
                            let a = m.regs[b1 as int];
                            let d = m.regs[b2 as int];
                            if d == 0 {
                                spec_fault(m, FaultKind::DivideByZero)
                            } else {
                                (
                                    VmModel {
                                        regs: m.regs.update(b3 as int, spec_div_quotient(a, d)),
                                        rem: spec_rem_as_u32(spec_div_remainder(a, d)),
                                        pc: (base + 4) as usize,
                                        ..m
                                    },
                                    None,
                                )
                            }
                        }
                    },
                    Opcode::EQ | Opcode::NEQ | Opcode::GT | Opcode::GEQ | Opcode::LE
                        | Opcode::LEQ => {
                        if b1 >= 32 || b2 >= 32 {
                            spec_fault(m, FaultKind::RegisterIndexOutOfRange)
                        } else {
                            let a = m.regs[b1 as int];
                            let b = m.regs[b2 as int];
                            let f = match op {
                                Opcode::EQ => a == b,
                                Opcode::NEQ => a != b,
                                Opcode::GT => a > b,
                                Opcode::GEQ => a >= b,
                                Opcode::LE => a < b,
                                _ => a <= b,
                            };
                            (VmModel { flag: f, pc: (base + 4) as usize, ..m }, None)
                        }
                    },
                    Opcode::JMP => {
                        if b1 >= 32 {
                            spec_fault(m, FaultKind::RegisterIndexOutOfRange)
                        } else {
                            let t = m.regs[b1 as int];
                            if t < 0 {
                                spec_fault(m, FaultKind::ProgramCounterOutOfRange)
                            } else {
                                (VmModel { pc: t as usize, ..m }, None)
                            }
                        }
                    },
                    Opcode::JMPF => {
                        if b1 >= 32 {
                            spec_fault(m, FaultKind::RegisterIndexOutOfRange)
                        } else {
                            let t = m.regs[b1 as int];
                            let target = base + 2 + t;
                            if t < 0 || target > usize::MAX {
                                spec_fault(m, FaultKind::ProgramCounterOutOfRange)
                            } else {
                                (VmModel { pc: target as usize, ..m }, None)
                            }
                        }
                    },
                    Opcode::JMPB => {
                        if b1 >= 32 {
                            spec_fault(m, FaultKind::RegisterIndexOutOfRange)
                        } else {
                            let t = m.regs[b1 as int];
                            let target = base + 2 - t;
                            if target < 0 {
                                spec_fault(m, FaultKind::BackwardJumpUnderflow)
                            } else if target > usize::MAX {
                                spec_fault(m, FaultKind::ProgramCounterOutOfRange)
                            } else {
                                (VmModel { pc: target as usize, ..m }, None)
                            }
                        }
                    },
                    Opcode::JEQ | Opcode::JNEQ => {
                        if b1 >= 32 {
                            spec_fault(m, FaultKind::RegisterIndexOutOfRange)
                        } else {
                            let taken = if op is JEQ {
                                m.flag
                            } else {
                                !m.flag
                            };
                            if !taken {
                                (VmModel { pc: (base + 4) as usize, ..m }, None)
                            } else {
                                let t = m.regs[b1 as int];
                                if t < 0 {
                                    spec_fault(m, FaultKind::ProgramCounterOutOfRange)
                                } else {
                                    (VmModel { pc: t as usize, ..m }, None)
                                }
                            }
                        }
                    },
                    Opcode::INC | Opcode::DEC => {
                        if b1 >= 32 {
                            spec_fault(m, FaultKind::RegisterIndexOutOfRange)
                        } else {
                            let a = m.regs[b1 as int];
                            let v = if op is INC {
                                vstd::wrapping::i32_specs::wrapping_add(a, 1)
                            } else {
                                vstd::wrapping::i32_specs::wrapping_sub(a, 1)
                            };
                            (
                                VmModel {
                                    regs: m.regs.update(b1 as int, v),
                                    pc: (base + 4) as usize,
                                    ..m
                                },
                                None,
                            )
                        }
                    },
                    Opcode::ALOC => {
                        if b1 >= 32 {
                            spec_fault(m, FaultKind::RegisterIndexOutOfRange)
                        } else {
                            let n = m.regs[b1 as int];
                            if n < 0 {
                                spec_fault(m, FaultKind::HeapAccessOutOfRange)
                            } else {
                                (
                                    VmModel {
                                        heap: spec_resize(m.heap, n as int),
                                        pc: (base + 4) as usize,
                                        ..m
                                    },
                                    None,
                                )
                            }
                        }
                    },
                    _ => (m, Some(RunOutcome::Halted)),
                }
            }
        },
    }
}

/// Every adjacent pair of states in the trace is one continuing cycle.
pub open spec fn steps_chain(tr: Seq<VmModel>) -> bool {
    forall|k: int|
        0 <= k < tr.len() - 1 ==> (#[trigger] spec_step(tr[k])).0 == tr[k + 1] && spec_step(
            tr[k],
        ).1 is None
}

/// `tr` is the exact run from `m0`: continuing cycles through the trace,
/// then one final cycle from its last state into `mf` with outcome `out`.
pub open spec fn trace_ok(m0: VmModel, tr: Seq<VmModel>, mf: VmModel, out: RunOutcome) -> bool {
    &&& tr.len() >= 1
    &&& tr[0] == m0
    &&& steps_chain(tr)
    &&& spec_step(tr.last()).0 == mf
    &&& spec_step(tr.last()).1 == Some(out)
}

/// Resizes a byte vector to `n`, zero-filling newly added space.
fn resize_zeroed(v: &mut Vec<u8>, n: usize)
    ensures
        final(v)@ == spec_resize(old(v)@, n as int),
{
    if n <= v.len() {
        v.truncate(n);
        proof {
            assert(v@ =~= spec_resize(old(v)@, n as int));
        }
    } else {
        let ghost h0 = v@;
        while v.len() < n
            invariant
                h0.len() <= v@.len() <= n,
                v@.take(h0.len() as int) == h0,
                forall|j: int| h0.len() <= j < v@.len() ==> v@[j] == 0u8,
            decreases n - v@.len(),
        {
            v.push(0);
            proof {
                assert(v@.take(h0.len() as int) =~= h0);
            }
        }
        proof {
            assert(v@ =~= spec_resize(h0, n as int));
        }
    }
}

/// The register machine: a fixed file of 32 signed 32-bit registers, a
/// bytecode buffer, a growable zero-filled heap, a program counter, the
/// remainder register and the comparison flag.
pub struct VM {
    pub registers: Vec<i32>,
    pub bytecode: Vec<u8>,
    pub heap: Vec<u8>,
    pub program_counter: usize,
    pub div_remainder: u32,
    pub eq_flag: bool,
}

impl View for VM {
    type V = VmModel;

    open spec fn view(&self) -> VmModel {
        VmModel {
            regs: self.registers@,
            code: self.bytecode@,
            heap: self.heap@,
            pc: self.program_counter,
            rem: self.div_remainder,
            flag: self.eq_flag,
        }
    }
}

impl VM {
    /// The register file has exactly its 32 registers.
    pub open spec fn wf(self) -> bool {
        self.registers@.len() == 32
    }

    pub fn new() -> (r: VM)
        ensures
            r.wf(),
            r@ == spec_initial_vm(),
    {
        let mut registers: Vec<i32> = Vec::new();
        let mut i: usize = 0;
        while i < 32
            invariant
                i <= 32,
                registers@ =~= Seq::new(i as nat, |k: int| 0i32),
            decreases 32 - i,
        {
            registers.push(0);
            i = i + 1;
            proof {
                assert(registers@ =~= Seq::new(i as nat, |k: int| 0i32));
            }
        }
        let r = VM {
            registers,
            bytecode: Vec::new(),
            heap: Vec::new(),
            program_counter: 0,
            div_remainder: 0,
            eq_flag: false,
        };
        proof {
            assert(r@ =~= spec_initial_vm());
        }
        r
    }

    /// Installs (`append == false`) or extends (`append == true`) the
    /// program buffer; no other machine state changes, so successive
    /// submissions accumulate against persisting registers and heap.
    pub fn load(&mut self, mut bytecode: Vec<u8>, append: bool)
        ensures
            final(self)@ == (VmModel {
                code: if append {
                    old(self)@.code + bytecode@
                } else {
                    bytecode@
                },
                ..old(self)@
            }),
            final(self).wf() == old(self).wf(),
    {
        let ghost b0 = bytecode@;
        if append {
            self.bytecode.append(&mut bytecode);
        } else {
            self.bytecode = bytecode;
        }
        proof {
            assert(self@ =~= (VmModel {
                code: if append {
                    old(self)@.code + b0
                } else {
                    b0
                },
                ..old(self)@
            }));
        }
    }

    /// Executes exactly one fetch-decode-dispatch cycle: the machine moves
    /// to `spec_step`'s state, and the result is `None` while the loop
    /// continues, or `Some` terminal reason.
    pub fn execute_bytecode(&mut self) -> (r: Option<RunOutcome>)
        requires
            old(self).wf(),
        ensures
            final(self).wf(),
            ({
                let s = spec_step(old(self)@);
                final(self)@ == s.0 && r == s.1
            }),
    {
        if self.program_counter >= self.bytecode.len() {
            return Some(RunOutcome::Exhausted);
        }
        let base = self.program_counter;
        let opb = self.bytecode[base];
        let op = match Opcode::from_byte(opb) {
            Some(op) => op,
            None => {
                return Some(RunOutcome::Faulted { kind: FaultKind::UnmappedOpcode, at: base });
            },
        };
        match op {
            Opcode::HLT | Opcode::NOP | Opcode::RSHT | Opcode::LFST | Opcode::RROR
                | Opcode::LROR => {
                self.program_counter = base + 1;
                proof {
                    assert(self@ =~= spec_step(old(self)@).0);
                }
                return Some(RunOutcome::Halted);
            },
            _ => {},
        }
        if self.bytecode.len() - base < 4 {
            return Some(
                RunOutcome::Faulted { kind: FaultKind::ProgramCounterOutOfRange, at: base },
            );
        }
        let b1 = self.bytecode[base + 1];
        let b2 = self.bytecode[base + 2];
        let b3 = self.bytecode[base + 3];
        match op {
            Opcode::LOAD => {
                if b1 >= 32 {
                    return Some(
                        RunOutcome::Faulted { kind: FaultKind::RegisterIndexOutOfRange, at: base },
                    );
                }
                let value: i32 = (b2 as u32 * 256 + b3 as u32) as i32;
                self.registers[b1 as usize] = value;
                self.program_counter = base + 4;
                proof {
                    assert(self@ =~= spec_step(old(self)@).0);
                }
                None
            },
            Opcode::ADD | Opcode::SUB | Opcode::MUL => {
                if b1 >= 32 || b2 >= 32 || b3 >= 32 {
                    return Some(
                        RunOutcome::Faulted { kind: FaultKind::RegisterIndexOutOfRange, at: base },
                    );
                }
                let a = self.registers[b1 as usize];
                let b = self.registers[b2 as usize];
                let v = match op {
                    Opcode::ADD => a.wrapping_add(b),
                    Opcode::SUB => a.wrapping_sub(b),
                    _ => a.wrapping_mul(b),
                };
                self.registers[b3 as usize] = v;
                self.program_counter = base + 4;
                proof {
                    assert(self@ =~= spec_step(old(self)@).0);
                }
                None
            },
            Opcode::DIV => {
                if b1 >= 32 || b2 >= 32 || b3 >= 32 {
                    return Some(
                        RunOutcome::Faulted { kind: FaultKind::RegisterIndexOutOfRange, at: base },
                    );
                }
                let a = self.registers[b1 as usize];
                let d = self.registers[b2 as usize];
                if d == 0 {
                    return Some(RunOutcome::Faulted { kind: FaultKind::DivideByZero, at: base });
                }
                let q: i32 = match a.checked_div(d) {
                    Some(q) => q,
                    None => i32::MIN,
                };
                let rr: i32 = match a.checked_rem(d) {
                    Some(x) => x,
                    None => 0,
                };
                let rem: u32 = if rr < 0 {
                    ((rr as i64) + 0x1_0000_0000) as u32
                } else {
                    rr as u32
                };
                self.registers[b3 as usize] = q;
                self.div_remainder = rem;
                self.program_counter = base + 4;
                proof {
                    assert(self@ =~= spec_step(old(self)@).0);
                }
                None
            },
            Opcode::EQ | Opcode::NEQ | Opcode::GT | Opcode::GEQ | Opcode::LE | Opcode::LEQ => {
                if b1 >= 32 || b2 >= 32 {
                    return Some(
                        RunOutcome::Faulted { kind: FaultKind::RegisterIndexOutOfRange, at: base },
                    );
                }
                let a = self.registers[b1 as usize];
                let b = self.registers[b2 as usize];
                let f = match op {
                    Opcode::EQ => a == b,
                    Opcode::NEQ => a != b,
                    Opcode::GT => a > b,
                    Opcode::GEQ => a >= b,
                    Opcode::LE => a < b,
                    _ => a <= b,
                };
                self.eq_flag = f;
                self.program_counter = base + 4;
                proof {
                    assert(self@ =~= spec_step(old(self)@).0);
                }
                None
            },
            Opcode::JMP => {
                if b1 >= 32 {
                    return Some(
                        RunOutcome::Faulted { kind: FaultKind::RegisterIndexOutOfRange, at: base },
                    );
                }
                let t = self.registers[b1 as usize];
                if t < 0 {
                    return Some(
                        RunOutcome::Faulted {
                            kind: FaultKind::ProgramCounterOutOfRange,
                            at: base,
                        },
                    );
                }
                self.program_counter = t as usize;
                proof {
                    assert(self@ =~= spec_step(old(self)@).0);
                }
                None
            },
            Opcode::JMPF => {
                if b1 >= 32 {
                    return Some(
                        RunOutcome::Faulted { kind: FaultKind::RegisterIndexOutOfRange, at: base },
                    );
                }
                let t = self.registers[b1 as usize];
                let target: i128 = base as i128 + 2 + t as i128;
                if t < 0 || target > usize::MAX as i128 {
                    return Some(
                        RunOutcome::Faulted {
                            kind: FaultKind::ProgramCounterOutOfRange,
                            at: base,
                        },
                    );
                }
                self.program_counter = target as usize;
                proof {
                    assert(self@ =~= spec_step(old(self)@).0);
                }
                None
            },
            Opcode::JMPB => {
                if b1 >= 32 {
                    return Some(
                        RunOutcome::Faulted { kind: FaultKind::RegisterIndexOutOfRange, at: base },
                    );
                }
                let t = self.registers[b1 as usize];
                let target: i128 = base as i128 + 2 - t as i128;
                if target < 0 {
                    return Some(
                        RunOutcome::Faulted { kind: FaultKind::BackwardJumpUnderflow, at: base },
                    );
                }
                if target > usize::MAX as i128 {
                    return Some(
                        RunOutcome::Faulted {
                            kind: FaultKind::ProgramCounterOutOfRange,
                            at: base,
                        },
                    );
                }
                self.program_counter = target as usize;
                proof {
                    assert(self@ =~= spec_step(old(self)@).0);
                }
                None
            },
            Opcode::JEQ | Opcode::JNEQ => {
                if b1 >= 32 {
                    return Some(
                        RunOutcome::Faulted { kind: FaultKind::RegisterIndexOutOfRange, at: base },
                    );
                }
                let taken = match op {
                    Opcode::JEQ => self.eq_flag,
                    _ => !self.eq_flag,
                };
                if !taken {
                    self.program_counter = base + 4;
                    proof {
                        assert(self@ =~= spec_step(old(self)@).0);
                    }
                    return None;
                }
                let t = self.registers[b1 as usize];
                if t < 0 {
                    return Some(
                        RunOutcome::Faulted {
                            kind: FaultKind::ProgramCounterOutOfRange,
                            at: base,
                        },
                    );
                }
                self.program_counter = t as usize;
                proof {
                    assert(self@ =~= spec_step(old(self)@).0);
                }
                None
            },
            Opcode::INC | Opcode::DEC => {
                if b1 >= 32 {
                    return Some(
                        RunOutcome::Faulted { kind: FaultKind::RegisterIndexOutOfRange, at: base },
                    );
                }
                let a = self.registers[b1 as usize];
                let v = match op {
                    Opcode::INC => a.wrapping_add(1),
                    _ => a.wrapping_sub(1),
                };
                self.registers[b1 as usize] = v;
                self.program_counter = base + 4;
                proof {
                    assert(self@ =~= spec_step(old(self)@).0);
                }
                None
            },
            Opcode::ALOC => {
                if b1 >= 32 {
                    return Some(
                        RunOutcome::Faulted { kind: FaultKind::RegisterIndexOutOfRange, at: base },
                    );
                }
                let n = self.registers[b1 as usize];
                if n < 0 {
                    return Some(
                        RunOutcome::Faulted { kind: FaultKind::HeapAccessOutOfRange, at: base },
                    );
                }
                resize_zeroed(&mut self.heap, n as usize);
                self.program_counter = base + 4;
                proof {
                    assert(self@ =~= spec_step(old(self)@).0);
                }
                None
            },
            _ => unreached(),
        }
    }

    /// Executes from the current program counter until a terminal
    /// condition, or until `max_steps` cycles have run (`None`: the
    /// machine is still runnable; the budget is the caller's policy).
    ///
    /// `Some(out)` comes with an exact trace: the machine stepped through
    /// a chain of continuing cycles from the old state and the last cycle
    /// produced the final state and the terminal reason.
    pub fn run(&mut self, max_steps: u64) -> (r: Option<RunOutcome>)
        requires
            old(self).wf(),
        ensures
            final(self).wf(),
            match r {
                Some(out) => exists|tr: Seq<VmModel>|
                    trace_ok(old(self)@, tr, final(self)@, out),
                None => exists|tr: Seq<VmModel>|
                    {
                        &&& tr.len() == max_steps + 1
                        &&& tr[0] == old(self)@
                        &&& tr.last() == final(self)@
                        &&& steps_chain(tr)
                    },
            },
    {
        let ghost mut tr: Seq<VmModel> = seq![old(self)@];
        let mut steps: u64 = 0;
        while steps < max_steps
            invariant
                self.wf(),
                steps <= max_steps,
                tr.len() == steps + 1,
                tr[0] == old(self)@,
                tr.last() == self@,
                steps_chain(tr),
            decreases max_steps - steps,
        {
            let ghost pre = self@;
            match self.execute_bytecode() {
                Some(out) => {
                    proof {
                        assert(trace_ok(old(self)@, tr, self@, out));
                    }
                    return Some(out);
                },
                None => {
                    proof {
                        let tr2 = tr.push(self@);
                        assert(steps_chain(tr2)) by {
                            assert forall|k: int| 0 <= k < tr2.len() - 1 implies (
                            #[trigger] spec_step(tr2[k])).0 == tr2[k + 1] && spec_step(
                                tr2[k],
                            ).1 is None by {
                                if k < tr.len() - 1 {
                                    assert(tr2[k] == tr[k]);
                                    assert(tr2[k + 1] == tr[k + 1]);
                                    assert(spec_step(tr[k]).0 == tr[k + 1] && spec_step(
                                        tr[k],
                                    ).1 is None);
                                } else {
                                    assert(tr2[k] == pre);
                                    assert(tr2[k + 1] == self@);
                                }
                            }
                        };
                        tr = tr2;
                    }
                    steps = steps + 1;
                },
            }
        }
        None
    }
}

} // verus!

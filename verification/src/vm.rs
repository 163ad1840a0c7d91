//! The machine: a register file, a memory, and the cycle that fetches one
//! instruction through the code capability and executes it.

use vstd::prelude::*;
use crate::arith::{sat_add, sat_div, sat_mul, sat_sub, saturate, saturated_quotient};
use crate::bytecode::{
    CRegister, Condition, GpRegister, Instruction, Int, Value, GP_REGISTERS, INSTRUCTION_SIZE,
};
use crate::capability::{Capability, Inner, Permissions, Seal};
use crate::layout::{split_word, MEMORY_SIZE};
use crate::memory::{Memory, MemoryView, RuntimeError, TAG_COUNT};

verus! {

/// The capability that the machine starts with in `CC` and in `DD`: it
/// points at address zero, reaches all of memory, allows everything, and
/// is unsealed and valid.
pub open spec fn boot_capability() -> Capability {
    Capability {
        inner: Inner::of_words(
            0,
            0,
            MEMORY_SIZE as Int,
            Inner::pack(Permissions { read: true, write: true, execute: true }, Seal::Unsealed),
        ),
        valid: true,
    }
}

/// The capability that every other capability register starts with: it
/// reaches nothing, allows nothing and is not valid.
pub open spec fn null_capability() -> Capability {
    Capability { inner: Inner::of_words(0, 0, 0, 0), valid: false }
}

/// What a register file holds.
pub struct Registers {
    pub gp: Seq<Int>,
    pub cap: Seq<Capability>,
    pub pc: Int,
}

impl Registers {
    /// There are `GP_REGISTERS` registers of each kind.
    pub open spec fn wf(self) -> bool {
        self.gp.len() == GP_REGISTERS && self.cap.len() == GP_REGISTERS
    }

    /// The word that an operand stands for.
    pub open spec fn eval(self, value: Value) -> Int {
        match value {
            Value::Reg(r) => self.gp[r.idx()],
            Value::Imm(n) => n,
        }
    }

    /// The registers with `v` in register `r`.
    pub open spec fn with_gp(self, r: GpRegister, v: Int) -> Registers {
        Registers { gp: self.gp.update(r.idx(), v), cap: self.cap, pc: self.pc }
    }

    /// The registers with `c` in capability register `r`.
    pub open spec fn with_cap(self, r: CRegister, c: Capability) -> Registers {
        Registers { gp: self.gp, cap: self.cap.update(r.idx(), c), pc: self.pc }
    }

    /// The registers with the program counter at `pc`.
    pub open spec fn with_pc(self, pc: Int) -> Registers {
        Registers { gp: self.gp, cap: self.cap, pc }
    }
}

/// Eight general-purpose registers, eight capability registers and the
/// program counter, which addresses bytes.
pub struct RegisterFile {
    gp: [Int; 8],
    cap: [Capability; 8],
    pc: Int,
}

impl View for RegisterFile {
    type V = Registers;

    closed spec fn view(&self) -> Registers {
        Registers { gp: self.gp@, cap: self.cap@, pc: self.pc }
    }
}

impl RegisterFile {
    /// A register file always has `GP_REGISTERS` registers of each kind.
    pub proof fn lemma_wf(&self)
        ensures
            self@.wf(),
    {
    }

    /// The content of a general-purpose register.
    pub fn gp(&self, r: GpRegister) -> (v: Int)
        ensures
            v == self@.gp[r.idx()],
    {
        self.gp[r.index()]
    }

    /// Puts `v` into a general-purpose register.
    pub fn set_gp(&mut self, r: GpRegister, v: Int)
        ensures
            final(self)@ == old(self)@.with_gp(r, v),
    {
        self.gp[r.index()] = v;
    }

    /// The content of a capability register.
    pub fn cap(&self, r: CRegister) -> (c: Capability)
        ensures
            c == self@.cap[r.idx()],
    {
        self.cap[r.index()]
    }

    /// Puts `c` into a capability register.
    pub fn set_cap(&mut self, r: CRegister, c: Capability)
        ensures
            final(self)@ == old(self)@.with_cap(r, c),
    {
        self.cap[r.index()] = c;
    }

    /// The program counter.
    pub fn pc(&self) -> (pc: Int)
        ensures
            pc == self@.pc,
    {
        self.pc
    }

    /// Sets the program counter.
    pub fn set_pc(&mut self, pc: Int)
        ensures
            final(self)@ == old(self)@.with_pc(pc),
    {
        self.pc = pc;
    }
}

impl Default for RegisterFile {
    /// Every register zero, every capability null.
    fn default() -> (r: Self)
        ensures
            r@.gp == Seq::new(GP_REGISTERS as nat, |i: int| 0i16),
            r@.cap == Seq::new(GP_REGISTERS as nat, |i: int| null_capability()),
            r@.pc == 0,
    {
        let r = Self { gp: [0i16; 8], cap: [Capability::default(); 8], pc: 0 };
        assert(r@.gp =~= Seq::new(GP_REGISTERS as nat, |i: int| 0i16));
        assert(r@.cap =~= Seq::new(GP_REGISTERS as nat, |i: int| null_capability()));
        r
    }
}

/// What a machine holds.
pub struct MachineView {
    pub memory: MemoryView,
    pub reg: Registers,
}

/// What executing one instruction does, before the program counter is
/// moved on.
pub struct Outcome {
    /// The machine afterwards.
    pub state: MachineView,
    /// Whether the instruction itself set the program counter.
    pub jumped: bool,
    /// The byte handed to the host, if the instruction emits one.
    pub output: Option<u8>,
}

impl MachineView {
    /// Memory and registers have their sizes.
    pub open spec fn wf(self) -> bool {
        self.memory.wf() && self.reg.wf()
    }

    /// The capability through which instructions are fetched.
    pub open spec fn code_cap(self) -> Capability {
        self.reg.cap[CRegister::CC.idx()]
    }

    /// The capability through which data is loaded and stored.
    pub open spec fn data_cap(self) -> Capability {
        self.reg.cap[CRegister::DD.idx()]
    }

    /// The outcome of an instruction that only puts `v` into register `r`.
    pub open spec fn assign(self, r: GpRegister, v: Int) -> Outcome {
        Outcome {
            state: MachineView { memory: self.memory, reg: self.reg.with_gp(r, v) },
            jumped: false,
            output: None,
        }
    }

    /// What executing `instr` does.
    pub open spec fn execute(self, instr: Instruction) -> Result<Outcome, RuntimeError> {
        let reg = self.reg;
        match instr {
            Instruction::Mov(r, v) => Ok(self.assign(r, reg.eval(v))),
            Instruction::Add(r, v) => Ok(self.assign(r, saturate(reg.gp[r.idx()] + reg.eval(v)))),
            Instruction::Sub(r, v) => Ok(self.assign(r, saturate(reg.gp[r.idx()] - reg.eval(v)))),
            Instruction::Mul(r, v) => Ok(self.assign(r, saturate(reg.gp[r.idx()] * reg.eval(v)))),
            Instruction::Div(r, v) => Ok(
                self.assign(r, saturated_quotient(reg.gp[r.idx()], reg.eval(v))),
            ),
            Instruction::And(r, v) => Ok(self.assign(r, reg.gp[r.idx()] & reg.eval(v))),
            Instruction::Or(r, v) => Ok(self.assign(r, reg.gp[r.idx()] | reg.eval(v))),
            Instruction::Xor(r, v) => Ok(self.assign(r, reg.gp[r.idx()] ^ reg.eval(v))),
            Instruction::Not(r) => Ok(self.assign(r, !reg.gp[r.idx()])),
            Instruction::Load(r, v) => match self.memory.load::<Int>(
                self.data_cap(),
                reg.eval(v),
            ) {
                Ok(x) => Ok(self.assign(r, x)),
                Err(e) => Err(e),
            },
            Instruction::Store(v, at) => match self.memory.store::<Int>(
                self.data_cap(),
                reg.eval(at),
                reg.eval(v),
            ) {
                Ok(m) => Ok(
                    Outcome {
                        state: MachineView { memory: m, reg },
                        jumped: false,
                        output: None,
                    },
                ),
                Err(e) => Err(e),
            },
            Instruction::Jmp(v) => Ok(
                Outcome {
                    state: MachineView { memory: self.memory, reg: reg.with_pc(reg.eval(v)) },
                    jumped: true,
                    output: None,
                },
            ),
            Instruction::Push(v) => {
                let top = saturate(reg.gp[GpRegister::SP.idx()] - 2);
                match self.memory.store::<Int>(self.data_cap(), top, reg.eval(v)) {
                    Ok(m) => Ok(
                        Outcome {
                            state: MachineView { memory: m, reg: reg.with_gp(GpRegister::SP, top) },
                            jumped: false,
                            output: None,
                        },
                    ),
                    Err(e) => Err(e),
                }
            },
            Instruction::Pop(r) => match self.memory.load::<Int>(
                self.data_cap(),
                reg.gp[GpRegister::SP.idx()],
            ) {
                Ok(x) => {
                    let popped = reg.with_gp(r, x);
                    Ok(
                        Outcome {
                            state: MachineView {
                                memory: self.memory,
                                reg: popped.with_gp(
                                    GpRegister::SP,
                                    saturate(popped.gp[GpRegister::SP.idx()] + 2),
                                ),
                            },
                            jumped: false,
                            output: None,
                        },
                    )
                },
                Err(e) => Err(e),
            },
            Instruction::Cond(r, c, v) => if c.holds(reg.gp[r.idx()], reg.eval(v)) {
                Ok(Outcome { state: self, jumped: false, output: None })
            } else {
                Ok(
                    Outcome {
                        state: MachineView {
                            memory: self.memory,
                            reg: reg.with_pc(saturate(reg.pc + 2 * INSTRUCTION_SIZE)),
                        },
                        jumped: true,
                        output: None,
                    },
                )
            },
            Instruction::Emit(v) => Ok(
                Outcome {
                    state: self,
                    jumped: false,
                    output: Some(((reg.eval(v) as int) % 256) as u8),
                },
            ),
        }
    }

    /// One cycle: fetch the instruction at the program counter through the
    /// code capability, execute it, and move the program counter on by one
    /// slot unless the instruction set it. Gives the machine afterwards and
    /// the byte emitted, or the failure that stopped the cycle.
    pub open spec fn step(self) -> Result<(MachineView, Option<u8>), RuntimeError> {
        match self.memory.fetch(self.code_cap(), self.reg.pc) {
            Err(e) => Err(e),
            Ok(instr) => match self.execute(instr) {
                Err(e) => Err(e),
                Ok(o) => Ok(
                    (
                        if o.jumped {
                            o.state
                        } else {
                            MachineView {
                                memory: o.state.memory,
                                reg: o.state.reg.with_pc(
                                    saturate(o.state.reg.pc + INSTRUCTION_SIZE),
                                ),
                            }
                        },
                        o.output,
                    ),
                ),
            },
        }
    }
}

/// A cycle that fetches `Cond` changes nothing but the program counter:
/// where the condition holds it moves on by one slot, so that the next
/// instruction is the next to run, and where it does not it moves on by
/// two, so that the next instruction is passed over.
pub proof fn lemma_cond_step(s: MachineView, r: GpRegister, c: Condition, v: Value)
    requires
        s.memory.fetch(s.code_cap(), s.reg.pc) == Ok::<Instruction, RuntimeError>(
            Instruction::Cond(r, c, v),
        ),
    ensures
        s.step() == Ok::<(MachineView, Option<u8>), RuntimeError>(
            (
                MachineView {
                    memory: s.memory,
                    reg: s.reg.with_pc(
                        saturate(
                            s.reg.pc + (if c.holds(s.reg.gp[r.idx()], s.reg.eval(v)) {
                                INSTRUCTION_SIZE as int
                            } else {
                                2 * INSTRUCTION_SIZE
                            }),
                        ),
                    ),
                },
                None,
            ),
        ),
{
}

/// The machine.
pub struct Machine {
    pub memory: Memory,
    pub reg: RegisterFile,
}

impl View for Machine {
    type V = MachineView;

    open spec fn view(&self) -> MachineView {
        MachineView { memory: self.memory@, reg: self.reg@ }
    }
}

impl Machine {
    /// A machine at boot: memory and registers are zero, no tag is set, and
    /// `CC` and `DD` hold the boot capability.
    pub fn new() -> (m: Self)
        ensures
            m@.wf(),
            forall|i: int| 0 <= i < MEMORY_SIZE ==> m@.memory.bytes[i] == 0u8,
            forall|i: int| 0 <= i < TAG_COUNT ==> !m@.memory.tags[i],
            m@.reg.gp == Seq::new(GP_REGISTERS as nat, |i: int| 0i16),
            m@.reg.cap == Seq::new(
                GP_REGISTERS as nat,
                |i: int|
                    if i == CRegister::CC.idx() || i == CRegister::DD.idx() {
                        boot_capability()
                    } else {
                        null_capability()
                    },
            ),
            m@.reg.pc == 0,
    {
        let mut mach = Self { memory: Memory::default(), reg: RegisterFile::default() };
        let cap = Capability {
            inner: Inner::new(0, 0..4096, Permissions::rwx(true, true, true), Seal::Unsealed),
            valid: true,
        };
        mach.reg.set_cap(CRegister::CC, cap);
        mach.reg.set_cap(CRegister::DD, cap);
        assert(mach@.reg.cap =~= Seq::new(
            GP_REGISTERS as nat,
            |i: int|
                if i == CRegister::CC.idx() || i == CRegister::DD.idx() {
                    boot_capability()
                } else {
                    null_capability()
                },
        ));
        mach
    }

    /// Runs one cycle. Gives the byte that the instruction emitted, if it
    /// emitted one. A failure leaves the machine as it was, with the
    /// program counter at the instruction that failed.
    pub fn tick(&mut self) -> (r: Result<Option<u8>, RuntimeError>)
        ensures
            match old(self)@.step() {
                Ok((next, output)) => r == Ok::<Option<u8>, RuntimeError>(output) && final(self)@
                    == next,
                Err(e) => r == Err::<Option<u8>, RuntimeError>(e) && final(self)@ == old(self)@,
            },
    {
        let instr = match self.memory.fetch(self.reg.cap(CRegister::CC), self.reg.pc()) {
            Ok(instr) => instr,
            Err(e) => {
                return Err(e);
            },
        };
        match self.execute_instruction(instr) {
            Err(e) => Err(e),
            Ok((jumped, output)) => {
                if !jumped {
                    let next = sat_add(self.reg.pc(), 12);
                    self.reg.set_pc(next);
                }
                Ok(output)
            },
        }
    }

    /// Executes `instr`. Says whether the instruction set the program
    /// counter, and gives the byte that it emitted, if any.
    fn execute_instruction(&mut self, instr: Instruction) -> (r: Result<
        (bool, Option<u8>),
        RuntimeError,
    >)
        ensures
            match old(self)@.execute(instr) {
                Ok(o) => r == Ok::<(bool, Option<u8>), RuntimeError>((o.jumped, o.output))
                    && final(self)@ == o.state,
                Err(e) => r == Err::<(bool, Option<u8>), RuntimeError>(e) && final(self)@ == old(
                    self,
                )@,
            },
    {
        let dd = self.reg.cap(CRegister::DD);
        match instr {
            Instruction::Mov(a, b) => {
                let v = self.eval(b);
                self.reg.set_gp(a, v);
            },
            Instruction::Add(a, b) => {
                let v = sat_add(self.reg.gp(a), self.eval(b));
                self.reg.set_gp(a, v);
            },
            Instruction::Sub(a, b) => {
                let v = sat_sub(self.reg.gp(a), self.eval(b));
                self.reg.set_gp(a, v);
            },
            Instruction::Mul(a, b) => {
                let v = sat_mul(self.reg.gp(a), self.eval(b));
                self.reg.set_gp(a, v);
            },
            Instruction::Div(a, b) => {
                let v = sat_div(self.reg.gp(a), self.eval(b));
                self.reg.set_gp(a, v);
            },
            Instruction::And(a, b) => {
                let v = self.reg.gp(a) & self.eval(b);
                self.reg.set_gp(a, v);
            },
            Instruction::Or(a, b) => {
                let v = self.reg.gp(a) | self.eval(b);
                self.reg.set_gp(a, v);
            },
            Instruction::Xor(a, b) => {
                let v = self.reg.gp(a) ^ self.eval(b);
                self.reg.set_gp(a, v);
            },
            Instruction::Not(a) => {
                let v = !self.reg.gp(a);
                self.reg.set_gp(a, v);
            },
            Instruction::Load(a, b) => {
                let v = match self.memory.load::<Int>(dd, self.eval(b)) {
                    Ok(v) => v,
                    Err(e) => {
                        return Err(e);
                    },
                };
                self.reg.set_gp(a, v);
            },
            Instruction::Store(a, b) => {
                let at = self.eval(b);
                let v = self.eval(a);
                match self.memory.store::<Int>(dd, at, v) {
                    Ok(()) => {},
                    Err(e) => {
                        return Err(e);
                    },
                }
            },
            Instruction::Jmp(a) => {
                let target = self.eval(a);
                self.reg.set_pc(target);
                return Ok((true, None));
            },
            Instruction::Push(a) => {
                let addr = sat_sub(self.reg.gp(GpRegister::SP), 2);
                let v = self.eval(a);
                match self.memory.store::<Int>(dd, addr, v) {
                    Ok(()) => {},
                    Err(e) => {
                        return Err(e);
                    },
                }
                self.reg.set_gp(GpRegister::SP, addr);
            },
            Instruction::Pop(a) => {
                let v = match self.memory.load::<Int>(dd, self.reg.gp(GpRegister::SP)) {
                    Ok(v) => v,
                    Err(e) => {
                        return Err(e);
                    },
                };
                self.reg.set_gp(a, v);
                let top = sat_add(self.reg.gp(GpRegister::SP), 2);
                self.reg.set_gp(GpRegister::SP, top);
            },
            Instruction::Cond(a, c, b) => {
                if !c.test(self.reg.gp(a), self.eval(b)) {
                    let target = sat_add(self.reg.pc(), 24);
                    self.reg.set_pc(target);
                    return Ok((true, None));
                }
            },
            Instruction::Emit(a) => {
                let n = self.eval(a);
                return Ok((false, Some(split_word(n).0)));
            },
        }
        Ok((false, None))
    }

    /// The word that an operand stands for: the content of the register,
    /// or the immediate.
    pub fn eval(&self, value: Value) -> (v: Int)
        ensures
            v == self@.reg.eval(value),
    {
        match value {
            Value::Reg(gp) => self.reg.gp(gp),
            Value::Imm(imm) => imm,
        }
    }
}

} // verus!

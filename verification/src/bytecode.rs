//! Machine word, register names, condition codes and the instruction set.

use vstd::prelude::*;

verus! {

/// The machine word. Addresses, immediates and register contents all have
/// this width.
pub type Int = i16;

/// Number of general-purpose registers; the capability bank has as many.
pub const GP_REGISTERS: usize = 8;

/// Bytes that one instruction slot occupies in memory. The program counter
/// always moves by a multiple of this stride.
pub const INSTRUCTION_SIZE: usize = 12;

/// A general-purpose register. `SP` is an ordinary register that `Push` and
/// `Pop` use as the stack pointer.
#[derive(Debug, Clone, Copy, PartialEq, Eq, Structural)]
pub enum GpRegister {
    R0,
    R1,
    R2,
    R3,
    R4,
    R5,
    R6,
    SP,
}

/// A capability register. `CC` mediates instruction fetch, `DD` mediates
/// data access.
#[derive(Debug, Clone, Copy, PartialEq, Eq, Structural)]
pub enum CRegister {
    C0,
    C1,
    C2,
    C3,
    C4,
    C5,
    CC,
    DD,
}

/// A comparison between two machine words.
#[derive(Debug, Clone, Copy, PartialEq, Eq, Structural)]
pub enum Condition {
    L,
    LE,
    E,
    GE,
    G,
}

/// An instruction operand: the content of a register, or an immediate.
#[derive(Debug, Clone, Copy, PartialEq, Eq, Structural)]
pub enum Value {
    Reg(GpRegister),
    Imm(Int),
}

/// The instruction set, in opcode order.
#[derive(Debug, Clone, Copy, PartialEq, Eq, Structural)]
pub enum Instruction {
    Mov(GpRegister, Value),
    Add(GpRegister, Value),
    Sub(GpRegister, Value),
    Mul(GpRegister, Value),
    Div(GpRegister, Value),
    And(GpRegister, Value),
    Or(GpRegister, Value),
    Xor(GpRegister, Value),
    Not(GpRegister),
    Load(GpRegister, Value),
    /// `Store(value, offset)`: the first operand is what gets stored, the
    /// second is where.
    Store(Value, Value),
    Jmp(Value),
    Push(Value),
    Pop(GpRegister),
    Cond(GpRegister, Condition, Value),
    Emit(Value),
}

impl GpRegister {
    /// Position of the register in the register bank.
    pub open spec fn idx(self) -> int {
        match self {
            GpRegister::R0 => 0,
            GpRegister::R1 => 1,
            GpRegister::R2 => 2,
            GpRegister::R3 => 3,
            GpRegister::R4 => 4,
            GpRegister::R5 => 5,
            GpRegister::R6 => 6,
            GpRegister::SP => 7,
        }
    }

    /// The register at position `i`; `SP` where there is none.
    pub open spec fn at_idx(i: int) -> GpRegister {
        if i == 0 {
            GpRegister::R0
        } else if i == 1 {
            GpRegister::R1
        } else if i == 2 {
            GpRegister::R2
        } else if i == 3 {
            GpRegister::R3
        } else if i == 4 {
            GpRegister::R4
        } else if i == 5 {
            GpRegister::R5
        } else if i == 6 {
            GpRegister::R6
        } else {
            GpRegister::SP
        }
    }

    pub fn index(self) -> (i: usize)
        ensures
            i == self.idx(),
            i < GP_REGISTERS,
    {
        match self {
            GpRegister::R0 => 0,
            GpRegister::R1 => 1,
            GpRegister::R2 => 2,
            GpRegister::R3 => 3,
            GpRegister::R4 => 4,
            GpRegister::R5 => 5,
            GpRegister::R6 => 6,
            GpRegister::SP => 7,
        }
    }

    /// The register at position `i`, if there is one.
    pub fn from_index(i: u8) -> (r: Option<GpRegister>)
        ensures
            r is Some <==> i < GP_REGISTERS,
            r matches Some(g) ==> g.idx() == i && g == GpRegister::at_idx(i as int),
    {
        match i {
            0 => Some(GpRegister::R0),
            1 => Some(GpRegister::R1),
            2 => Some(GpRegister::R2),
            3 => Some(GpRegister::R3),
            4 => Some(GpRegister::R4),
            5 => Some(GpRegister::R5),
            6 => Some(GpRegister::R6),
            7 => Some(GpRegister::SP),
            _ => None,
        }
    }
}

impl CRegister {
    /// Position of the register in the capability bank.
    pub open spec fn idx(self) -> int {
        match self {
            CRegister::C0 => 0,
            CRegister::C1 => 1,
            CRegister::C2 => 2,
            CRegister::C3 => 3,
            CRegister::C4 => 4,
            CRegister::C5 => 5,
            CRegister::CC => 6,
            CRegister::DD => 7,
        }
    }

    pub fn index(self) -> (i: usize)
        ensures
            i == self.idx(),
            i < GP_REGISTERS,
    {
        match self {
            CRegister::C0 => 0,
            CRegister::C1 => 1,
            CRegister::C2 => 2,
            CRegister::C3 => 3,
            CRegister::C4 => 4,
            CRegister::C5 => 5,
            CRegister::CC => 6,
            CRegister::DD => 7,
        }
    }

    /// The register at position `i`, if there is one.
    pub fn from_index(i: u8) -> (r: Option<CRegister>)
        ensures
            r is Some <==> i < GP_REGISTERS,
            r matches Some(c) ==> c.idx() == i,
    {
        match i {
            0 => Some(CRegister::C0),
            1 => Some(CRegister::C1),
            2 => Some(CRegister::C2),
            3 => Some(CRegister::C3),
            4 => Some(CRegister::C4),
            5 => Some(CRegister::C5),
            6 => Some(CRegister::CC),
            7 => Some(CRegister::DD),
            _ => None,
        }
    }
}

impl Condition {
    /// What the comparison says of `left` and `right`.
    pub open spec fn holds(&self, left: Int, right: Int) -> bool {
        match self {
            Condition::L => left < right,
            Condition::LE => left <= right,
            Condition::E => left == right,
            Condition::GE => left >= right,
            Condition::G => left > right,
        }
    }

    #[verifier::when_used_as_spec(holds)]
    pub fn test(&self, left: Int, right: Int) -> (b: bool)
        ensures
            b == self.holds(left, right),
    {
        match self {
            Condition::L => left < right,
            Condition::LE => left <= right,
            Condition::E => left == right,
            Condition::GE => left >= right,
            Condition::G => left > right,
        }
    }

    /// Code of the condition in the binary form of `Cond`.
    pub open spec fn idx(self) -> int {
        match self {
            Condition::L => 0,
            Condition::LE => 1,
            Condition::E => 2,
            Condition::GE => 3,
            Condition::G => 4,
        }
    }

    /// The condition with code `i`; `G` where there is none.
    pub open spec fn at_idx(i: int) -> Condition {
        if i == 0 {
            Condition::L
        } else if i == 1 {
            Condition::LE
        } else if i == 2 {
            Condition::E
        } else if i == 3 {
            Condition::GE
        } else {
            Condition::G
        }
    }

    pub fn index(self) -> (i: u8)
        ensures
            i == self.idx(),
    {
        match self {
            Condition::L => 0,
            Condition::LE => 1,
            Condition::E => 2,
            Condition::GE => 3,
            Condition::G => 4,
        }
    }

    /// The condition with code `i`, if there is one.
    pub fn from_index(i: u8) -> (c: Option<Condition>)
        ensures
            c is Some <==> i < 5,
            c matches Some(k) ==> k.idx() == i && k == Condition::at_idx(i as int),
    {
        match i {
            0 => Some(Condition::L),
            1 => Some(Condition::LE),
            2 => Some(Condition::E),
            3 => Some(Condition::GE),
            4 => Some(Condition::G),
            _ => None,
        }
    }
}

/// The name of an instruction, without its operands. The order is that of
/// the discriminant in the binary form.
#[derive(Debug, Clone, Copy, PartialEq, Eq, Structural)]
pub enum Opcode {
    Mov,
    Add,
    Sub,
    Mul,
    Div,
    And,
    Or,
    Xor,
    Not,
    Load,
    Store,
    Jmp,
    Push,
    Pop,
    Cond,
    Emit,
}

/// Which operands an instruction takes, in the order in which they are
/// written.
#[derive(Debug, Clone, Copy, PartialEq, Eq, Structural)]
pub enum Shape {
    /// A register, then a value.
    RegValue,
    /// A register.
    Reg,
    /// Two values.
    ValueValue,
    /// A value.
    Value,
    /// A register, a condition, then a value.
    RegCondValue,
}

impl Opcode {
    /// The operands that the instruction of this name takes.
    pub open spec fn spec_shape(&self) -> Shape {
        match self {
            Opcode::Mov => Shape::RegValue,
            Opcode::Add => Shape::RegValue,
            Opcode::Sub => Shape::RegValue,
            Opcode::Mul => Shape::RegValue,
            Opcode::Div => Shape::RegValue,
            Opcode::And => Shape::RegValue,
            Opcode::Or => Shape::RegValue,
            Opcode::Xor => Shape::RegValue,
            Opcode::Not => Shape::Reg,
            Opcode::Load => Shape::RegValue,
            Opcode::Store => Shape::ValueValue,
            Opcode::Jmp => Shape::Value,
            Opcode::Push => Shape::Value,
            Opcode::Pop => Shape::Reg,
            Opcode::Cond => Shape::RegCondValue,
            Opcode::Emit => Shape::Value,
        }
    }

    #[verifier::when_used_as_spec(spec_shape)]
    pub fn shape(&self) -> (s: Shape)
        ensures
            s == self.spec_shape(),
    {
        match self {
            Opcode::Mov => Shape::RegValue,
            Opcode::Add => Shape::RegValue,
            Opcode::Sub => Shape::RegValue,
            Opcode::Mul => Shape::RegValue,
            Opcode::Div => Shape::RegValue,
            Opcode::And => Shape::RegValue,
            Opcode::Or => Shape::RegValue,
            Opcode::Xor => Shape::RegValue,
            Opcode::Not => Shape::Reg,
            Opcode::Load => Shape::RegValue,
            Opcode::Store => Shape::ValueValue,
            Opcode::Jmp => Shape::Value,
            Opcode::Push => Shape::Value,
            Opcode::Pop => Shape::Reg,
            Opcode::Cond => Shape::RegCondValue,
            Opcode::Emit => Shape::Value,
        }
    }
}

impl Instruction {
    pub open spec fn spec_opcode(&self) -> Opcode {
        match self {
            Instruction::Mov(..) => Opcode::Mov,
            Instruction::Add(..) => Opcode::Add,
            Instruction::Sub(..) => Opcode::Sub,
            Instruction::Mul(..) => Opcode::Mul,
            Instruction::Div(..) => Opcode::Div,
            Instruction::And(..) => Opcode::And,
            Instruction::Or(..) => Opcode::Or,
            Instruction::Xor(..) => Opcode::Xor,
            Instruction::Not(..) => Opcode::Not,
            Instruction::Load(..) => Opcode::Load,
            Instruction::Store(..) => Opcode::Store,
            Instruction::Jmp(..) => Opcode::Jmp,
            Instruction::Push(..) => Opcode::Push,
            Instruction::Pop(..) => Opcode::Pop,
            Instruction::Cond(..) => Opcode::Cond,
            Instruction::Emit(..) => Opcode::Emit,
        }
    }

    /// The name of the instruction.
    #[verifier::when_used_as_spec(spec_opcode)]
    pub fn opcode(&self) -> (op: Opcode)
        ensures
            op == self.spec_opcode(),
    {
        match self {
            Instruction::Mov(..) => Opcode::Mov,
            Instruction::Add(..) => Opcode::Add,
            Instruction::Sub(..) => Opcode::Sub,
            Instruction::Mul(..) => Opcode::Mul,
            Instruction::Div(..) => Opcode::Div,
            Instruction::And(..) => Opcode::And,
            Instruction::Or(..) => Opcode::Or,
            Instruction::Xor(..) => Opcode::Xor,
            Instruction::Not(..) => Opcode::Not,
            Instruction::Load(..) => Opcode::Load,
            Instruction::Store(..) => Opcode::Store,
            Instruction::Jmp(..) => Opcode::Jmp,
            Instruction::Push(..) => Opcode::Push,
            Instruction::Pop(..) => Opcode::Pop,
            Instruction::Cond(..) => Opcode::Cond,
            Instruction::Emit(..) => Opcode::Emit,
        }
    }
}

} // verus!

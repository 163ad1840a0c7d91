//! The intermediate form of a program: labels, and instructions whose
//! value operands may still name a label or the instruction's own address.

use vstd::prelude::*;
use vstd::hash_map::StringHashMap;
use crate::bytecode::{CRegister, Condition, GpRegister, Instruction, Int, Opcode, Shape, Value};

verus! {

/// What an operand is resolved against: the offset of every label, and the
/// offset of the instruction that the operand belongs to.
pub struct Env<'a> {
    pub map: &'a StringHashMap<Int>,
    pub position: Int,
}

/// A value operand before resolution.
#[derive(Debug, Clone, PartialEq, Eq)]
pub enum InterRepValue {
    /// A register or an immediate, as it will appear.
    ByteCodeValue(Value),
    /// The offset of the label of this name.
    LabelRef(String),
    /// The offset of the instruction that holds the operand.
    Here,
}

/// An instruction before resolution: registers and conditions are fixed,
/// value operands may be symbolic.
#[derive(Debug, Clone, PartialEq, Eq)]
pub enum IrInstruction {
    Mov(GpRegister, InterRepValue),
    Add(GpRegister, InterRepValue),
    Sub(GpRegister, InterRepValue),
    Mul(GpRegister, InterRepValue),
    Div(GpRegister, InterRepValue),
    And(GpRegister, InterRepValue),
    Or(GpRegister, InterRepValue),
    Xor(GpRegister, InterRepValue),
    Not(GpRegister),
    Load(GpRegister, InterRepValue),
    Store(InterRepValue, InterRepValue),
    Jmp(InterRepValue),
    Push(InterRepValue),
    Pop(GpRegister),
    Cond(GpRegister, Condition, InterRepValue),
    Emit(InterRepValue),
}

/// One element of a program in intermediate form.
#[derive(Debug, Clone, PartialEq, Eq)]
pub enum InterRep {
    /// An instruction that takes one slot.
    Instruction(IrInstruction),
    /// A name for the offset of the next instruction.
    Label(String),
}

/// Something that resolves to a `T` once labels and position are known.
/// Where a label is not known, its name comes back instead.
pub trait Convert<T> {
    /// What `self` resolves to with the label offsets `labels` in an
    /// instruction at offset `position`.
    spec fn resolved(&self, labels: Map<Seq<char>, Int>, position: Int) -> Result<T, Seq<char>>;

    fn convert(&self, labels: &Env) -> (r: Result<T, String>)
        ensures
            match self.resolved(labels.map@, labels.position) {
                Ok(t) => r == Ok::<T, String>(t),
                Err(name) => r matches Err(s) && s@ == name,
            },
    ;
}

impl Convert<Value> for InterRepValue {
    /// A concrete value is itself; a label is the immediate of its offset;
    /// `Here` is the immediate of the position.
    open spec fn resolved(&self, labels: Map<Seq<char>, Int>, position: Int) -> Result<
        Value,
        Seq<char>,
    > {
        match self {
            InterRepValue::ByteCodeValue(v) => Ok(*v),
            InterRepValue::LabelRef(name) => if labels.contains_key(name@) {
                Ok(Value::Imm(labels[name@]))
            } else {
                Err(name@)
            },
            InterRepValue::Here => Ok(Value::Imm(position)),
        }
    }

    fn convert(&self, labels: &Env) -> (r: Result<Value, String>) {
        match self {
            InterRepValue::ByteCodeValue(bcv) => Ok(*bcv),
            InterRepValue::LabelRef(lab) => match labels.map.get(lab.as_str()) {
                Some(n) => Ok(Value::Imm(*n)),
                None => Err(lab.clone()),
            },
            InterRepValue::Here => Ok(Value::Imm(labels.position)),
        }
    }
}

impl Convert<GpRegister> for GpRegister {
    open spec fn resolved(&self, labels: Map<Seq<char>, Int>, position: Int) -> Result<
        GpRegister,
        Seq<char>,
    > {
        Ok(*self)
    }

    fn convert(&self, labels: &Env) -> (r: Result<GpRegister, String>) {
        Ok(*self)
    }
}

impl Convert<CRegister> for CRegister {
    open spec fn resolved(&self, labels: Map<Seq<char>, Int>, position: Int) -> Result<
        CRegister,
        Seq<char>,
    > {
        Ok(*self)
    }

    fn convert(&self, labels: &Env) -> (r: Result<CRegister, String>) {
        Ok(*self)
    }
}

impl Convert<Condition> for Condition {
    open spec fn resolved(&self, labels: Map<Seq<char>, Int>, position: Int) -> Result<
        Condition,
        Seq<char>,
    > {
        Ok(*self)
    }

    fn convert(&self, labels: &Env) -> (r: Result<Condition, String>) {
        Ok(*self)
    }
}

impl IrInstruction {
    /// The value operands, in the order in which they are written.
    pub open spec fn operands(self) -> Seq<InterRepValue> {
        match self {
            IrInstruction::Mov(_, v)
            | IrInstruction::Add(_, v)
            | IrInstruction::Sub(_, v)
            | IrInstruction::Mul(_, v)
            | IrInstruction::Div(_, v)
            | IrInstruction::And(_, v)
            | IrInstruction::Or(_, v)
            | IrInstruction::Xor(_, v)
            | IrInstruction::Load(_, v)
            | IrInstruction::Jmp(v)
            | IrInstruction::Push(v)
            | IrInstruction::Emit(v)
            | IrInstruction::Cond(_, _, v) => seq![v],
            IrInstruction::Store(v, w) => seq![v, w],
            IrInstruction::Not(_) | IrInstruction::Pop(_) => seq![],
        }
    }
}

impl Convert<Instruction> for IrInstruction {
    /// The same instruction with every value operand resolved, or the name
    /// of the first operand's label that is not known.
    open spec fn resolved(&self, labels: Map<Seq<char>, Int>, position: Int) -> Result<
        Instruction,
        Seq<char>,
    > {
        match self {
            IrInstruction::Mov(r, v) => match v.resolved(labels, position) {
                Ok(v) => Ok(Instruction::Mov(*r, v)),
                Err(name) => Err(name),
            },
            IrInstruction::Add(r, v) => match v.resolved(labels, position) {
                Ok(v) => Ok(Instruction::Add(*r, v)),
                Err(name) => Err(name),
            },
            IrInstruction::Sub(r, v) => match v.resolved(labels, position) {
                Ok(v) => Ok(Instruction::Sub(*r, v)),
                Err(name) => Err(name),
            },
            IrInstruction::Mul(r, v) => match v.resolved(labels, position) {
                Ok(v) => Ok(Instruction::Mul(*r, v)),
                Err(name) => Err(name),
            },
            IrInstruction::Div(r, v) => match v.resolved(labels, position) {
                Ok(v) => Ok(Instruction::Div(*r, v)),
                Err(name) => Err(name),
            },
            IrInstruction::And(r, v) => match v.resolved(labels, position) {
                Ok(v) => Ok(Instruction::And(*r, v)),
                Err(name) => Err(name),
            },
            IrInstruction::Or(r, v) => match v.resolved(labels, position) {
                Ok(v) => Ok(Instruction::Or(*r, v)),
                Err(name) => Err(name),
            },
            IrInstruction::Xor(r, v) => match v.resolved(labels, position) {
                Ok(v) => Ok(Instruction::Xor(*r, v)),
                Err(name) => Err(name),
            },
            IrInstruction::Load(r, v) => match v.resolved(labels, position) {
                Ok(v) => Ok(Instruction::Load(*r, v)),
                Err(name) => Err(name),
            },
            IrInstruction::Not(r) => Ok(Instruction::Not(*r)),
            IrInstruction::Pop(r) => Ok(Instruction::Pop(*r)),
            IrInstruction::Store(v, at) => match v.resolved(labels, position) {
                Ok(v) => match at.resolved(labels, position) {
                    Ok(at) => Ok(Instruction::Store(v, at)),
                    Err(name) => Err(name),
                },
                Err(name) => Err(name),
            },
            IrInstruction::Jmp(v) => match v.resolved(labels, position) {
                Ok(v) => Ok(Instruction::Jmp(v)),
                Err(name) => Err(name),
            },
            IrInstruction::Push(v) => match v.resolved(labels, position) {
                Ok(v) => Ok(Instruction::Push(v)),
                Err(name) => Err(name),
            },
            IrInstruction::Emit(v) => match v.resolved(labels, position) {
                Ok(v) => Ok(Instruction::Emit(v)),
                Err(name) => Err(name),
            },
            IrInstruction::Cond(r, c, v) => match v.resolved(labels, position) {
                Ok(v) => Ok(Instruction::Cond(*r, *c, v)),
                Err(name) => Err(name),
            },
        }
    }

    fn convert(&self, labels: &Env) -> (r: Result<Instruction, String>) {
        match self {
            IrInstruction::Mov(r, v) => match v.convert(labels) {
                Ok(v) => Ok(Instruction::Mov(*r, v)),
                Err(name) => Err(name),
            },
            IrInstruction::Add(r, v) => match v.convert(labels) {
                Ok(v) => Ok(Instruction::Add(*r, v)),
                Err(name) => Err(name),
            },
            IrInstruction::Sub(r, v) => match v.convert(labels) {
                Ok(v) => Ok(Instruction::Sub(*r, v)),
                Err(name) => Err(name),
            },
            IrInstruction::Mul(r, v) => match v.convert(labels) {
                Ok(v) => Ok(Instruction::Mul(*r, v)),
                Err(name) => Err(name),
            },
            IrInstruction::Div(r, v) => match v.convert(labels) {
                Ok(v) => Ok(Instruction::Div(*r, v)),
                Err(name) => Err(name),
            },
            IrInstruction::And(r, v) => match v.convert(labels) {
                Ok(v) => Ok(Instruction::And(*r, v)),
                Err(name) => Err(name),
            },
            IrInstruction::Or(r, v) => match v.convert(labels) {
                Ok(v) => Ok(Instruction::Or(*r, v)),
                Err(name) => Err(name),
            },
            IrInstruction::Xor(r, v) => match v.convert(labels) {
                Ok(v) => Ok(Instruction::Xor(*r, v)),
                Err(name) => Err(name),
            },
            IrInstruction::Load(r, v) => match v.convert(labels) {
                Ok(v) => Ok(Instruction::Load(*r, v)),
                Err(name) => Err(name),
            },
            IrInstruction::Not(r) => Ok(Instruction::Not(*r)),
            IrInstruction::Pop(r) => Ok(Instruction::Pop(*r)),
            IrInstruction::Store(v, at) => match v.convert(labels) {
                Ok(v) => match at.convert(labels) {
                    Ok(at) => Ok(Instruction::Store(v, at)),
                    Err(name) => Err(name),
                },
                Err(name) => Err(name),
            },
            IrInstruction::Jmp(v) => match v.convert(labels) {
                Ok(v) => Ok(Instruction::Jmp(v)),
                Err(name) => Err(name),
            },
            IrInstruction::Push(v) => match v.convert(labels) {
                Ok(v) => Ok(Instruction::Push(v)),
                Err(name) => Err(name),
            },
            IrInstruction::Emit(v) => match v.convert(labels) {
                Ok(v) => Ok(Instruction::Emit(v)),
                Err(name) => Err(name),
            },
            IrInstruction::Cond(r, c, v) => match v.convert(labels) {
                Ok(v) => Ok(Instruction::Cond(*r, *c, v)),
                Err(name) => Err(name),
            },
        }
    }
}

/// What a value operand before resolution says.
pub enum SymbolicValue {
    Concrete(Value),
    Label(Seq<char>),
    Here,
}

/// What an instruction before resolution says: its name and its operands.
pub struct IrInstructionView {
    pub opcode: Opcode,
    pub register: Option<GpRegister>,
    pub condition: Option<Condition>,
    pub operands: Seq<SymbolicValue>,
}

/// What an element of a program in intermediate form says.
pub enum InterRepView {
    Instruction(IrInstructionView),
    Label(Seq<char>),
}

impl View for InterRepValue {
    type V = SymbolicValue;

    open spec fn view(&self) -> SymbolicValue {
        match self {
            InterRepValue::ByteCodeValue(v) => SymbolicValue::Concrete(*v),
            InterRepValue::LabelRef(name) => SymbolicValue::Label(name@),
            InterRepValue::Here => SymbolicValue::Here,
        }
    }
}

impl IrInstruction {
    /// The name of the instruction.
    pub open spec fn opcode(self) -> Opcode {
        match self {
            IrInstruction::Mov(..) => Opcode::Mov,
            IrInstruction::Add(..) => Opcode::Add,
            IrInstruction::Sub(..) => Opcode::Sub,
            IrInstruction::Mul(..) => Opcode::Mul,
            IrInstruction::Div(..) => Opcode::Div,
            IrInstruction::And(..) => Opcode::And,
            IrInstruction::Or(..) => Opcode::Or,
            IrInstruction::Xor(..) => Opcode::Xor,
            IrInstruction::Not(..) => Opcode::Not,
            IrInstruction::Load(..) => Opcode::Load,
            IrInstruction::Store(..) => Opcode::Store,
            IrInstruction::Jmp(..) => Opcode::Jmp,
            IrInstruction::Push(..) => Opcode::Push,
            IrInstruction::Pop(..) => Opcode::Pop,
            IrInstruction::Cond(..) => Opcode::Cond,
            IrInstruction::Emit(..) => Opcode::Emit,
        }
    }

    /// The register operand, if the instruction has one.
    pub open spec fn register(self) -> Option<GpRegister> {
        match self {
            IrInstruction::Mov(r, _)
            | IrInstruction::Add(r, _)
            | IrInstruction::Sub(r, _)
            | IrInstruction::Mul(r, _)
            | IrInstruction::Div(r, _)
            | IrInstruction::And(r, _)
            | IrInstruction::Or(r, _)
            | IrInstruction::Xor(r, _)
            | IrInstruction::Load(r, _)
            | IrInstruction::Not(r)
            | IrInstruction::Pop(r)
            | IrInstruction::Cond(r, _, _) => Some(r),
            IrInstruction::Store(..)
            | IrInstruction::Jmp(_)
            | IrInstruction::Push(_)
            | IrInstruction::Emit(_) => None,
        }
    }

    /// The condition operand, if the instruction has one.
    pub open spec fn condition(self) -> Option<Condition> {
        match self {
            IrInstruction::Cond(_, c, _) => Some(c),
            _ => None,
        }
    }

    /// Puts an instruction together from its name and its operands. Gives
    /// nothing where the operands are not those that the name takes.
    pub fn build(
        opcode: Opcode,
        register: Option<GpRegister>,
        condition: Option<Condition>,
        first: Option<InterRepValue>,
        second: Option<InterRepValue>,
    ) -> (r: Option<IrInstruction>)
        ensures
            r is Some <==> (match opcode.shape() {
                Shape::RegValue => register is Some && condition is None && first is Some
                    && second is None,
                Shape::Reg => register is Some && condition is None && first is None
                    && second is None,
                Shape::ValueValue => register is None && condition is None && first is Some
                    && second is Some,
                Shape::Value => register is None && condition is None && first is Some
                    && second is None,
                Shape::RegCondValue => register is Some && condition is Some && first is Some
                    && second is None,
            }),
            r matches Some(i) ==> i@ == (IrInstructionView {
                opcode,
                register,
                condition,
                operands: match (first, second) {
                    (Some(v), Some(w)) => seq![v@, w@],
                    (Some(v), None) => seq![v@],
                    _ => seq![],
                },
            }),
    {
        let r = match (opcode, register, condition, first, second) {
            (Opcode::Mov, Some(r), None, Some(v), None) => Some(IrInstruction::Mov(r, v)),
            (Opcode::Add, Some(r), None, Some(v), None) => Some(IrInstruction::Add(r, v)),
            (Opcode::Sub, Some(r), None, Some(v), None) => Some(IrInstruction::Sub(r, v)),
            (Opcode::Mul, Some(r), None, Some(v), None) => Some(IrInstruction::Mul(r, v)),
            (Opcode::Div, Some(r), None, Some(v), None) => Some(IrInstruction::Div(r, v)),
            (Opcode::And, Some(r), None, Some(v), None) => Some(IrInstruction::And(r, v)),
            (Opcode::Or, Some(r), None, Some(v), None) => Some(IrInstruction::Or(r, v)),
            (Opcode::Xor, Some(r), None, Some(v), None) => Some(IrInstruction::Xor(r, v)),
            (Opcode::Not, Some(r), None, None, None) => Some(IrInstruction::Not(r)),
            (Opcode::Load, Some(r), None, Some(v), None) => Some(IrInstruction::Load(r, v)),
            (Opcode::Store, None, None, Some(v), Some(w)) => Some(IrInstruction::Store(v, w)),
            (Opcode::Jmp, None, None, Some(v), None) => Some(IrInstruction::Jmp(v)),
            (Opcode::Push, None, None, Some(v), None) => Some(IrInstruction::Push(v)),
            (Opcode::Pop, Some(r), None, None, None) => Some(IrInstruction::Pop(r)),
            (Opcode::Cond, Some(r), Some(c), Some(v), None) => Some(IrInstruction::Cond(r, c, v)),
            (Opcode::Emit, None, None, Some(v), None) => Some(IrInstruction::Emit(v)),
            _ => None,
        };
        proof {
            if let Some(i) = &r {
                assert(i@.operands =~= match (first, second) {
                    (Some(v), Some(w)) => seq![v@, w@],
                    (Some(v), None) => seq![v@],
                    _ => seq![],
                });
            }
        }
        r
    }
}

impl View for IrInstruction {
    type V = IrInstructionView;

    open spec fn view(&self) -> IrInstructionView {
        IrInstructionView {
            opcode: self.opcode(),
            register: self.register(),
            condition: self.condition(),
            operands: self.operands().map_values(|v: InterRepValue| v@),
        }
    }
}

impl View for InterRep {
    type V = InterRepView;

    open spec fn view(&self) -> InterRepView {
        match self {
            InterRep::Instruction(i) => InterRepView::Instruction(i@),
            InterRep::Label(name) => InterRepView::Label(name@),
        }
    }
}

impl InterRepValue {
    /// The operand with a label that `labels` holds written as the
    /// immediate of its offset.
    pub open spec fn inlined(self, labels: Map<Seq<char>, Int>) -> InterRepValue {
        match self {
            InterRepValue::LabelRef(name) => if labels.contains_key(name@) {
                InterRepValue::ByteCodeValue(Value::Imm(labels[name@]))
            } else {
                self
            },
            _ => self,
        }
    }
}

impl IrInstruction {
    /// The instruction with every label that `labels` holds written as the
    /// immediate of its offset.
    pub open spec fn inlined(self, labels: Map<Seq<char>, Int>) -> IrInstruction {
        match self {
            IrInstruction::Mov(r, v) => IrInstruction::Mov(r, v.inlined(labels)),
            IrInstruction::Add(r, v) => IrInstruction::Add(r, v.inlined(labels)),
            IrInstruction::Sub(r, v) => IrInstruction::Sub(r, v.inlined(labels)),
            IrInstruction::Mul(r, v) => IrInstruction::Mul(r, v.inlined(labels)),
            IrInstruction::Div(r, v) => IrInstruction::Div(r, v.inlined(labels)),
            IrInstruction::And(r, v) => IrInstruction::And(r, v.inlined(labels)),
            IrInstruction::Or(r, v) => IrInstruction::Or(r, v.inlined(labels)),
            IrInstruction::Xor(r, v) => IrInstruction::Xor(r, v.inlined(labels)),
            IrInstruction::Not(r) => IrInstruction::Not(r),
            IrInstruction::Load(r, v) => IrInstruction::Load(r, v.inlined(labels)),
            IrInstruction::Store(v, w) => IrInstruction::Store(v.inlined(labels), w.inlined(labels)),
            IrInstruction::Jmp(v) => IrInstruction::Jmp(v.inlined(labels)),
            IrInstruction::Push(v) => IrInstruction::Push(v.inlined(labels)),
            IrInstruction::Pop(r) => IrInstruction::Pop(r),
            IrInstruction::Cond(r, c, v) => IrInstruction::Cond(r, c, v.inlined(labels)),
            IrInstruction::Emit(v) => IrInstruction::Emit(v.inlined(labels)),
        }
    }
}

impl InterRep {
    /// The element with every label reference that `labels` holds written
    /// as the immediate of its offset. A label definition stays.
    pub open spec fn inlined(self, labels: Map<Seq<char>, Int>) -> InterRep {
        match self {
            InterRep::Instruction(i) => InterRep::Instruction(i.inlined(labels)),
            InterRep::Label(_) => self,
        }
    }
}

/// What a value operand resolves to depends only on what it says.
pub proof fn lemma_value_resolved_by_view(
    a: InterRepValue,
    b: InterRepValue,
    labels: Map<Seq<char>, Int>,
    position: Int,
)
    requires
        a@ == b@,
    ensures
        a.resolved(labels, position) == b.resolved(labels, position),
{
}

/// What an instruction resolves to depends only on what it says.
pub proof fn lemma_resolved_by_view(
    a: IrInstruction,
    b: IrInstruction,
    labels: Map<Seq<char>, Int>,
    position: Int,
)
    requires
        a@ == b@,
    ensures
        a.resolved(labels, position) == b.resolved(labels, position),
{
    assert(a@.operands.len() == a.operands().len());
    assert(b@.operands.len() == b.operands().len());
    if a.operands().len() > 0 {
        assert(a@.operands[0] == a.operands()[0]@);
        assert(b@.operands[0] == b.operands()[0]@);
        lemma_value_resolved_by_view(a.operands()[0], b.operands()[0], labels, position);
    }
    if a.operands().len() > 1 {
        assert(a@.operands[1] == a.operands()[1]@);
        assert(b@.operands[1] == b.operands()[1]@);
        lemma_value_resolved_by_view(a.operands()[1], b.operands()[1], labels, position);
    }
}

} // verus!

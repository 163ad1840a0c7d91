//! The binary form of instructions.
//!
//! An instruction fills one slot of `INSTRUCTION_SIZE` bytes: the opcode,
//! the register operand, the condition code and a zero byte, then two
//! value operands of four bytes each. A value is a kind byte (0 for a
//! register, 1 for an immediate), the register, and the immediate with its
//! low byte first. Whatever an instruction does not use is zero. The
//! opcodes from 16 on are kept for instructions on capabilities: no slot
//! that starts with one stands for an instruction.

use vstd::prelude::*;
use crate::bytecode::{Condition, GpRegister, Instruction, Opcode, Value, INSTRUCTION_SIZE};
use crate::layout::{high_byte, join_word, low_byte, overwrite, split_word, word_of, Storable};

verus! {

/// The four bytes of a value operand.
pub open spec fn value_bytes(v: Value) -> Seq<u8> {
    match v {
        Value::Reg(r) => seq![0u8, r.idx() as u8, 0u8, 0u8],
        Value::Imm(n) => seq![1u8, 0u8, low_byte(n), high_byte(n)],
    }
}

/// The four bytes of a value operand that is not used.
pub open spec fn no_value() -> Seq<u8> {
    seq![0u8, 0u8, 0u8, 0u8]
}

/// The first four bytes of a slot.
pub open spec fn head_bytes(opcode: u8, reg: int, cond: int) -> Seq<u8> {
    seq![opcode, reg as u8, cond as u8, 0u8]
}

impl Opcode {
    /// The discriminant byte of the instruction of this name.
    pub open spec fn spec_code(&self) -> u8 {
        match self {
            Opcode::Mov => 0,
            Opcode::Add => 1,
            Opcode::Sub => 2,
            Opcode::Mul => 3,
            Opcode::Div => 4,
            Opcode::And => 5,
            Opcode::Or => 6,
            Opcode::Xor => 7,
            Opcode::Not => 8,
            Opcode::Load => 9,
            Opcode::Store => 10,
            Opcode::Jmp => 11,
            Opcode::Push => 12,
            Opcode::Pop => 13,
            Opcode::Cond => 14,
            Opcode::Emit => 15,
        }
    }

    #[verifier::when_used_as_spec(spec_code)]
    pub fn code(&self) -> (c: u8)
        ensures
            c == self.spec_code(),
    {
        match self {
            Opcode::Mov => 0,
            Opcode::Add => 1,
            Opcode::Sub => 2,
            Opcode::Mul => 3,
            Opcode::Div => 4,
            Opcode::And => 5,
            Opcode::Or => 6,
            Opcode::Xor => 7,
            Opcode::Not => 8,
            Opcode::Load => 9,
            Opcode::Store => 10,
            Opcode::Jmp => 11,
            Opcode::Push => 12,
            Opcode::Pop => 13,
            Opcode::Cond => 14,
            Opcode::Emit => 15,
        }
    }
}

impl Instruction {
    /// The register operand, if the instruction has one.
    pub open spec fn register(self) -> Option<GpRegister> {
        match self {
            Instruction::Mov(r, _)
            | Instruction::Add(r, _)
            | Instruction::Sub(r, _)
            | Instruction::Mul(r, _)
            | Instruction::Div(r, _)
            | Instruction::And(r, _)
            | Instruction::Or(r, _)
            | Instruction::Xor(r, _)
            | Instruction::Load(r, _)
            | Instruction::Not(r)
            | Instruction::Pop(r)
            | Instruction::Cond(r, _, _) => Some(r),
            Instruction::Store(..)
            | Instruction::Jmp(_)
            | Instruction::Push(_)
            | Instruction::Emit(_) => None,
        }
    }

    /// The condition operand, if the instruction has one.
    pub open spec fn condition(self) -> Option<Condition> {
        match self {
            Instruction::Cond(_, c, _) => Some(c),
            _ => None,
        }
    }

    /// The value operands, in the order in which they are written.
    pub open spec fn operands(self) -> Seq<Value> {
        match self {
            Instruction::Mov(_, v)
            | Instruction::Add(_, v)
            | Instruction::Sub(_, v)
            | Instruction::Mul(_, v)
            | Instruction::Div(_, v)
            | Instruction::And(_, v)
            | Instruction::Or(_, v)
            | Instruction::Xor(_, v)
            | Instruction::Load(_, v)
            | Instruction::Jmp(v)
            | Instruction::Push(v)
            | Instruction::Emit(v)
            | Instruction::Cond(_, _, v) => seq![v],
            Instruction::Store(v, w) => seq![v, w],
            Instruction::Not(_) | Instruction::Pop(_) => seq![],
        }
    }

    /// The bytes of the slot that holds the instruction.
    pub open spec fn slot(self) -> Seq<u8> {
        head_bytes(
            self.opcode().code(),
            match self.register() {
                Some(r) => r.idx(),
                None => 0,
            },
            match self.condition() {
                Some(c) => c.idx(),
                None => 0,
            },
        ) + operand_bytes(self.operands(), 0) + operand_bytes(self.operands(), 1)
    }
}

/// The four bytes of the value operand at position `k`, zero where there
/// is none.
pub open spec fn operand_bytes(operands: Seq<Value>, k: int) -> Seq<u8> {
    if k < operands.len() {
        value_bytes(operands[k])
    } else {
        no_value()
    }
}

/// The value that four bytes read as, whatever they are.
pub open spec fn value_read(b: Seq<u8>) -> Value {
    if b[0] == 1 {
        Value::Imm(word_of(b[2], b[3]))
    } else {
        Value::Reg(GpRegister::at_idx(b[1] as int))
    }
}

/// The instruction that the bytes of a slot read as, whatever they are:
/// each field is taken from its place, and a byte that names nothing is
/// read as the last name there is.
pub open spec fn slot_read(b: Seq<u8>) -> Instruction {
    let r = GpRegister::at_idx(b[1] as int);
    let c = Condition::at_idx(b[2] as int);
    let v = value_read(b.subrange(4, 8));
    let w = value_read(b.subrange(8, 12));
    if b[0] == 0 {
        Instruction::Mov(r, v)
    } else if b[0] == 1 {
        Instruction::Add(r, v)
    } else if b[0] == 2 {
        Instruction::Sub(r, v)
    } else if b[0] == 3 {
        Instruction::Mul(r, v)
    } else if b[0] == 4 {
        Instruction::Div(r, v)
    } else if b[0] == 5 {
        Instruction::And(r, v)
    } else if b[0] == 6 {
        Instruction::Or(r, v)
    } else if b[0] == 7 {
        Instruction::Xor(r, v)
    } else if b[0] == 8 {
        Instruction::Not(r)
    } else if b[0] == 9 {
        Instruction::Load(r, v)
    } else if b[0] == 10 {
        Instruction::Store(v, w)
    } else if b[0] == 11 {
        Instruction::Jmp(v)
    } else if b[0] == 12 {
        Instruction::Push(v)
    } else if b[0] == 13 {
        Instruction::Pop(r)
    } else if b[0] == 14 {
        Instruction::Cond(r, c, v)
    } else {
        Instruction::Emit(v)
    }
}

/// A value is what its bytes read as.
pub proof fn lemma_value_read(v: Value)
    ensures
        value_bytes(v).len() == 4,
        value_read(value_bytes(v)) == v,
{
}

/// A slot has `INSTRUCTION_SIZE` bytes, and an instruction is what its
/// slot reads as.
pub proof fn lemma_slot_read(i: Instruction)
    ensures
        i.slot().len() == INSTRUCTION_SIZE,
        slot_read(i.slot()) == i,
{
    let b = i.slot();
    let ops = i.operands();
    if ops.len() > 0 {
        lemma_value_read(ops[0]);
    }
    if ops.len() > 1 {
        lemma_value_read(ops[1]);
    }
    assert(b.subrange(4, 8) =~= operand_bytes(ops, 0));
    assert(b.subrange(8, 12) =~= operand_bytes(ops, 1));
}

/// The four bytes of a value operand, zero where there is none.
fn value_parts(v: Option<Value>) -> (b: [u8; 4])
    ensures
        b@ == (match v {
            Some(v) => value_bytes(v),
            None => no_value(),
        }),
{
    let b = match v {
        Some(Value::Reg(r)) => [0, r.index() as u8, 0, 0],
        Some(Value::Imm(n)) => {
            let (lo, hi) = split_word(n);
            [1, 0, lo, hi]
        },
        None => [0, 0, 0, 0],
    };
    assert(b@ =~= (match v {
        Some(v) => value_bytes(v),
        None => no_value(),
    }));
    b
}

/// The value that the four bytes from `at` on read as.
fn get_value(buf: &[u8], at: usize) -> (v: Value)
    requires
        at + 4 <= buf@.len(),
    ensures
        v == value_read(buf@.subrange(at as int, at + 4)),
{
    proof {
        vstd::slice::axiom_spec_len(buf);
    }
    if buf[at] == 1 {
        Value::Imm(join_word(buf[at + 2], buf[at + 3]))
    } else {
        match GpRegister::from_index(buf[at + 1]) {
            Some(r) => Value::Reg(r),
            None => Value::Reg(GpRegister::SP),
        }
    }
}

impl Instruction {
    fn register_operand(&self) -> (r: Option<GpRegister>)
        ensures
            r == self.register(),
    {
        match *self {
            Instruction::Mov(r, _)
            | Instruction::Add(r, _)
            | Instruction::Sub(r, _)
            | Instruction::Mul(r, _)
            | Instruction::Div(r, _)
            | Instruction::And(r, _)
            | Instruction::Or(r, _)
            | Instruction::Xor(r, _)
            | Instruction::Load(r, _)
            | Instruction::Not(r)
            | Instruction::Pop(r)
            | Instruction::Cond(r, _, _) => Some(r),
            Instruction::Store(..)
            | Instruction::Jmp(_)
            | Instruction::Push(_)
            | Instruction::Emit(_) => None,
        }
    }

    fn value_operands(&self) -> (v: (Option<Value>, Option<Value>))
        ensures
            v.0 == (if self.operands().len() > 0 {
                Some(self.operands()[0])
            } else {
                None
            }),
            v.1 == (if self.operands().len() > 1 {
                Some(self.operands()[1])
            } else {
                None
            }),
    {
        match *self {
            Instruction::Mov(_, v)
            | Instruction::Add(_, v)
            | Instruction::Sub(_, v)
            | Instruction::Mul(_, v)
            | Instruction::Div(_, v)
            | Instruction::And(_, v)
            | Instruction::Or(_, v)
            | Instruction::Xor(_, v)
            | Instruction::Load(_, v)
            | Instruction::Jmp(v)
            | Instruction::Push(v)
            | Instruction::Emit(v)
            | Instruction::Cond(_, _, v) => (Some(v), None),
            Instruction::Store(v, w) => (Some(v), Some(w)),
            Instruction::Not(_) | Instruction::Pop(_) => (None, None),
        }
    }

    /// The bytes of the slot that holds the instruction.
    pub fn encode(&self) -> (bytes: [u8; 12])
        ensures
            bytes@ == self.slot(),
    {
        let op = self.opcode().code();
        let reg: u8 = match self.register_operand() {
            Some(r) => r.index() as u8,
            None => 0,
        };
        let cond: u8 = match *self {
            Instruction::Cond(_, c, _) => c.index(),
            _ => 0,
        };
        let (first, second) = self.value_operands();
        let v = value_parts(first);
        let w = value_parts(second);
        let bytes = [op, reg, cond, 0, v[0], v[1], v[2], v[3], w[0], w[1], w[2], w[3]];
        assert(bytes@ =~= head_bytes(op, reg as int, cond as int) + v@ + w@);
        bytes
    }

    /// The instruction whose slot is the `INSTRUCTION_SIZE` bytes that
    /// start at position `at` of `buf`, if they are the slot of one.
    pub fn decode(buf: &[u8], at: usize) -> (r: Option<Instruction>)
        requires
            at + INSTRUCTION_SIZE <= buf@.len(),
        ensures
            r == Instruction::decoding(buf@.subrange(at as int, at + INSTRUCTION_SIZE)),
    {
        proof {
            vstd::slice::axiom_spec_len(buf);
        }
        let ghost b = buf@.subrange(at as int, at + INSTRUCTION_SIZE);
        let r = match GpRegister::from_index(buf[at + 1]) {
            Some(r) => r,
            None => GpRegister::SP,
        };
        let c = match Condition::from_index(buf[at + 2]) {
            Some(c) => c,
            None => Condition::G,
        };
        let v = get_value(buf, at + 4);
        let w = get_value(buf, at + 8);
        proof {
            assert(b.subrange(4, 8) =~= buf@.subrange(at + 4, at + 8));
            assert(b.subrange(8, 12) =~= buf@.subrange(at + 8, at + 12));
        }
        let op = buf[at];
        let read = if op == 0 {
            Instruction::Mov(r, v)
        } else if op == 1 {
            Instruction::Add(r, v)
        } else if op == 2 {
            Instruction::Sub(r, v)
        } else if op == 3 {
            Instruction::Mul(r, v)
        } else if op == 4 {
            Instruction::Div(r, v)
        } else if op == 5 {
            Instruction::And(r, v)
        } else if op == 6 {
            Instruction::Or(r, v)
        } else if op == 7 {
            Instruction::Xor(r, v)
        } else if op == 8 {
            Instruction::Not(r)
        } else if op == 9 {
            Instruction::Load(r, v)
        } else if op == 10 {
            Instruction::Store(v, w)
        } else if op == 11 {
            Instruction::Jmp(v)
        } else if op == 12 {
            Instruction::Push(v)
        } else if op == 13 {
            Instruction::Pop(r)
        } else if op == 14 {
            Instruction::Cond(r, c, v)
        } else {
            Instruction::Emit(v)
        };
        assert(read == slot_read(b));
        let slot = read.encode();
        let mut k: usize = 0;
        while k < INSTRUCTION_SIZE
            invariant
                k <= INSTRUCTION_SIZE,
                at + INSTRUCTION_SIZE <= buf@.len(),
                buf@.len() <= usize::MAX,
                slot@ == read.slot(),
                read == slot_read(b),
                b == buf@.subrange(at as int, at + INSTRUCTION_SIZE),
                forall|j: int| 0 <= j < k ==> slot@[j] == buf@[at + j],
            decreases INSTRUCTION_SIZE - k,
        {
            if slot[k] != buf[at + k] {
                assert(read.slot()[k as int] != b[k as int]);
                return None;
            }
            k += 1;
        }
        assert(read.slot() =~= b);
        Some(read)
    }
}

impl Storable for Instruction {
    open spec fn width() -> nat {
        INSTRUCTION_SIZE as nat
    }

    open spec fn alignment() -> nat {
        4
    }

    open spec fn encoding(&self) -> Seq<u8> {
        self.slot()
    }

    /// Bytes stand for the instruction that they read as, if they are
    /// exactly its slot.
    open spec fn decoding(bytes: Seq<u8>) -> Option<Instruction> {
        if slot_read(bytes).slot() == bytes {
            Some(slot_read(bytes))
        } else {
            None
        }
    }

    proof fn lemma_layout() {
    }

    proof fn lemma_roundtrip(&self) {
        lemma_slot_read(*self);
    }

    fn size() -> (n: usize) {
        INSTRUCTION_SIZE
    }

    fn align() -> (n: usize) {
        4
    }

    fn write_to(&self, buf: &mut [u8], at: usize) {
        proof {
            vstd::slice::axiom_spec_len(buf);
            lemma_slot_read(*self);
        }
        let slot = self.encode();
        let mut k: usize = 0;
        while k < INSTRUCTION_SIZE
            invariant
                k <= INSTRUCTION_SIZE,
                at + INSTRUCTION_SIZE <= buf@.len(),
                buf@.len() == old(buf)@.len(),
                buf@.len() <= usize::MAX,
                slot@ == self.slot(),
                self.slot().len() == INSTRUCTION_SIZE,
                buf@ == overwrite(old(buf)@, at as int, self.slot().take(k as int)),
            decreases INSTRUCTION_SIZE - k,
        {
            buf[at + k] = slot[k];
            k += 1;
            assert(buf@ =~= overwrite(old(buf)@, at as int, self.slot().take(k as int)));
        }
        assert(self.slot().take(INSTRUCTION_SIZE as int) =~= self.slot());
    }

    fn read_from(buf: &[u8], at: usize) -> (r: Option<Instruction>) {
        Instruction::decode(buf, at)
    }
}

/// Bytes stand for an instruction exactly when they are its slot.
pub proof fn lemma_decoding(bytes: Seq<u8>, i: Instruction)
    ensures
        Instruction::decoding(bytes) == Some(i) <==> i.slot() == bytes,
{
    lemma_slot_read(i);
}

} // verus!

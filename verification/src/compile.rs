//! The assembler: two passes over a program in intermediate form. The
//! first gives every label the offset of the instruction that follows it,
//! the second resolves every instruction against those offsets and its own.

use vstd::prelude::*;
use vstd::hash_map::StringHashMap;
use crate::bytecode::{Instruction, Int, Value, INSTRUCTION_SIZE};
use crate::ir::{lemma_resolved_by_view, Convert, Env, InterRep, InterRepView, IrInstruction};
use crate::memory::encode_all;

verus! {

/// Why a program could not be assembled.
#[derive(Debug, Clone, PartialEq, Eq)]
pub enum CompileError {
    /// An operand names a label that the program does not define. Holds
    /// the name.
    UndefinedLabel(String),
}

/// Number of instructions in a program; labels take no slot.
pub open spec fn instruction_count(ir: Seq<InterRep>) -> nat
    decreases ir.len(),
{
    if ir.len() == 0 {
        0
    } else {
        instruction_count(ir.drop_last()) + match ir.last() {
            InterRep::Instruction(_) => 1nat,
            InterRep::Label(_) => 0nat,
        }
    }
}

/// The offset of every label of a program: that of the instruction that
/// follows it. Where a name is defined twice, its last definition counts.
pub open spec fn label_map(ir: Seq<InterRep>) -> Map<Seq<char>, Int>
    decreases ir.len(),
{
    if ir.len() == 0 {
        Map::empty()
    } else {
        match ir.last() {
            InterRep::Instruction(_) => label_map(ir.drop_last()),
            InterRep::Label(name) => label_map(ir.drop_last()).insert(
                name@,
                (instruction_count(ir.drop_last()) * INSTRUCTION_SIZE) as Int,
            ),
        }
    }
}

/// The instructions of a program, each resolved against `labels` and
/// against its own offset, or the name of the first label met that
/// `labels` does not hold.
pub open spec fn assemble(ir: Seq<InterRep>, labels: Map<Seq<char>, Int>) -> Result<
    Seq<Instruction>,
    Seq<char>,
>
    decreases ir.len(),
{
    if ir.len() == 0 {
        Ok(Seq::empty())
    } else {
        match assemble(ir.drop_last(), labels) {
            Err(name) => Err(name),
            Ok(done) => match ir.last() {
                InterRep::Label(_) => Ok(done),
                InterRep::Instruction(i) => match i.resolved(
                    labels,
                    (done.len() * INSTRUCTION_SIZE) as Int,
                ) {
                    Ok(instr) => Ok(done.push(instr)),
                    Err(name) => Err(name),
                },
            },
        }
    }
}

/// What a program assembles to.
pub open spec fn compiled(ir: Seq<InterRep>) -> Result<Seq<Instruction>, Seq<char>> {
    assemble(ir, label_map(ir))
}

/// A prefix of a program has no more instructions than the program.
pub proof fn lemma_instruction_count(ir: Seq<InterRep>, k: int)
    requires
        0 <= k <= ir.len(),
    ensures
        instruction_count(ir.take(k)) <= instruction_count(ir),
    decreases ir.len(),
{
    if ir.len() > 0 {
        if k < ir.len() {
            lemma_instruction_count(ir.drop_last(), k);
            assert(ir.drop_last().take(k) =~= ir.take(k));
        } else {
            assert(ir.take(k) =~= ir);
        }
    } else {
        assert(ir.take(k) =~= ir);
    }
}

/// Assembles a program: gives the instructions to be written to memory
/// from offset zero on, or the name of the first label that an operand
/// names and the program does not define. The offset of every slot of the
/// program, and of the slot after its last, must be a machine word.
pub fn compile(inter_rep: Vec<InterRep>) -> (r: Result<Vec<Instruction>, CompileError>)
    requires
        instruction_count(inter_rep@) * INSTRUCTION_SIZE <= Int::MAX,
    ensures
        match compiled(inter_rep@) {
            Ok(out) => r matches Ok(v) && v@ == out,
            Err(name) => r matches Err(CompileError::UndefinedLabel(s)) && s@ == name,
        },
{
    let ghost ir = inter_rep@;
    let mut labels: StringHashMap<Int> = StringHashMap::new();
    let mut count: usize = 0;
    let mut i: usize = 0;
    assert(ir.take(0) =~= Seq::<InterRep>::empty());
    while i < inter_rep.len()
        invariant
            i <= inter_rep.len(),
            ir == inter_rep@,
            count == instruction_count(ir.take(i as int)),
            labels@ == label_map(ir.take(i as int)),
            instruction_count(ir) * INSTRUCTION_SIZE <= Int::MAX,
        decreases inter_rep.len() - i,
    {
        proof {
            lemma_instruction_count(ir, i as int);
            lemma_instruction_count(ir, i + 1);
            assert(ir.take(i + 1).drop_last() =~= ir.take(i as int));
        }
        match &inter_rep[i] {
            InterRep::Instruction(_) => {
                count += 1;
            },
            InterRep::Label(name) => {
                labels.insert(name.clone(), (count * INSTRUCTION_SIZE) as Int);
            },
        }
        i += 1;
    }
    assert(ir.take(ir.len() as int) =~= ir);

    let mut instrs: Vec<Instruction> = Vec::new();
    let mut i: usize = 0;
    while i < inter_rep.len()
        invariant
            i <= inter_rep.len(),
            ir == inter_rep@,
            labels@ == label_map(ir),
            assemble(ir.take(i as int), labels@) == Ok::<Seq<Instruction>, Seq<char>>(instrs@),
            instruction_count(ir) * INSTRUCTION_SIZE <= Int::MAX,
        decreases inter_rep.len() - i,
    {
        proof {
            lemma_instruction_count(ir, i as int);
            lemma_instruction_count(ir, i + 1);
            lemma_assemble_pointwise(ir.take(i as int), labels@);
            assert(ir.take(i + 1).drop_last() =~= ir.take(i as int));
        }
        match &inter_rep[i] {
            InterRep::Label(_) => {},
            InterRep::Instruction(instr) => {
                let env = Env { map: &labels, position: (instrs.len() * INSTRUCTION_SIZE) as Int };
                match instr.convert(&env) {
                    Ok(resolved) => {
                        instrs.push(resolved);
                    },
                    Err(name) => {
                        proof {
                            lemma_assemble_failure(ir, i + 1, labels@);
                        }
                        return Err(CompileError::UndefinedLabel(name));
                    },
                }
            },
        }
        i += 1;
    }
    assert(ir.take(ir.len() as int) =~= ir);
    Ok(instrs)
}

/// Where a prefix of a program fails to assemble, the program fails in the
/// same way.
pub proof fn lemma_assemble_failure(ir: Seq<InterRep>, k: int, labels: Map<Seq<char>, Int>)
    requires
        0 <= k <= ir.len(),
        assemble(ir.take(k), labels) is Err,
    ensures
        assemble(ir, labels) == assemble(ir.take(k), labels),
    decreases ir.len(),
{
    if k < ir.len() {
        assert(ir.drop_last().take(k) =~= ir.take(k));
        lemma_assemble_failure(ir.drop_last(), k, labels);
    } else {
        assert(ir.take(k) =~= ir);
    }
}

/// The instructions of a program, in their order.
pub open spec fn instructions(ir: Seq<InterRep>) -> Seq<IrInstruction>
    decreases ir.len(),
{
    if ir.len() == 0 {
        Seq::empty()
    } else {
        match ir.last() {
            InterRep::Instruction(i) => instructions(ir.drop_last()).push(i),
            InterRep::Label(_) => instructions(ir.drop_last()),
        }
    }
}

/// What assembles has one instruction for each instruction of the program,
/// in the same order: the instruction at position `i` resolved against the
/// labels and against the offset of slot `i`.
pub proof fn lemma_assemble_pointwise(ir: Seq<InterRep>, labels: Map<Seq<char>, Int>)
    ensures
        instructions(ir).len() == instruction_count(ir),
        assemble(ir, labels) matches Ok(out) ==> out.len() == instructions(ir).len() && forall|
            i: int,
        |
            0 <= i < out.len() ==> (#[trigger] instructions(ir)[i]).resolved(
                labels,
                (i * INSTRUCTION_SIZE) as Int,
            ) == Ok::<Instruction, Seq<char>>(out[i]),
    decreases ir.len(),
{
    if ir.len() > 0 {
        lemma_assemble_pointwise(ir.drop_last(), labels);
    }
}

/// An instruction that resolves keeps its name, its register and its
/// condition, and each of its value operands is what the operand in the
/// same place resolves to.
pub proof fn lemma_resolved_operands(
    instr: IrInstruction,
    labels: Map<Seq<char>, Int>,
    position: Int,
)
    ensures
        instr.resolved(labels, position) matches Ok(done) ==> {
            &&& done.opcode() == instr.opcode()
            &&& done.register() == instr.register()
            &&& done.condition() == instr.condition()
            &&& done.operands().len() == instr.operands().len()
            &&& forall|k: int|
                0 <= k < instr.operands().len() ==> (#[trigger] instr.operands()[k]).resolved(
                    labels,
                    position,
                ) == Ok::<Value, Seq<char>>(done.operands()[k])
        },
{
}

/// `Here` in an operand of the instruction at position `i` becomes the
/// immediate `i` times the size of a slot, whatever labels the program
/// defines and wherever they stand.
pub proof fn lemma_here_is_own_offset(ir: Seq<InterRep>, i: int, k: int)
    requires
        instruction_count(ir) * INSTRUCTION_SIZE <= Int::MAX,
        compiled(ir) is Ok,
        0 <= i < instructions(ir).len(),
        0 <= k < instructions(ir)[i].operands().len(),
        instructions(ir)[i].operands()[k] is Here,
    ensures
        0 <= i * INSTRUCTION_SIZE <= Int::MAX,
        i < compiled(ir)->Ok_0.len(),
        k < compiled(ir)->Ok_0[i].operands().len(),
        compiled(ir)->Ok_0[i].operands()[k] == Value::Imm((i * INSTRUCTION_SIZE) as Int),
{
    let labels = label_map(ir);
    lemma_assemble_pointwise(ir, labels);
    let instr = instructions(ir)[i];
    lemma_resolved_operands(instr, labels, (i * INSTRUCTION_SIZE) as Int);
    assert(instr.operands()[k].resolved(labels, (i * INSTRUCTION_SIZE) as Int) == Ok::<
        Value,
        Seq<char>,
    >(Value::Imm((i * INSTRUCTION_SIZE) as Int)));
}

/// A program with every label reference written as the immediate of the
/// label's offset.
pub open spec fn inlined(ir: Seq<InterRep>, labels: Map<Seq<char>, Int>) -> Seq<InterRep> {
    ir.map_values(|e: InterRep| e.inlined(labels))
}

/// An operand that resolves against `labels` resolves to the same value
/// against any labels once those of `labels` are written as immediates.
pub proof fn lemma_inlined_instruction(
    instr: IrInstruction,
    labels: Map<Seq<char>, Int>,
    others: Map<Seq<char>, Int>,
    position: Int,
)
    requires
        instr.resolved(labels, position) is Ok,
    ensures
        instr.inlined(labels).resolved(others, position) == instr.resolved(labels, position),
{
}

/// Writing label references as immediates changes neither the labels of a
/// program nor, where the program assembles, what it assembles to.
pub proof fn lemma_inlined_assemble(
    ir: Seq<InterRep>,
    labels: Map<Seq<char>, Int>,
    others: Map<Seq<char>, Int>,
)
    requires
        assemble(ir, labels) is Ok,
    ensures
        label_map(inlined(ir, labels)) == label_map(ir),
        instruction_count(inlined(ir, labels)) == instruction_count(ir),
        assemble(inlined(ir, labels), others) == assemble(ir, labels),
    decreases ir.len(),
{
    let flat = inlined(ir, labels);
    if ir.len() > 0 {
        assert(flat.drop_last() =~= inlined(ir.drop_last(), labels));
        lemma_inlined_assemble(ir.drop_last(), labels, others);
        match ir.last() {
            InterRep::Instruction(i) => {
                let done = assemble(ir.drop_last(), labels)->Ok_0;
                lemma_inlined_instruction(
                    i,
                    labels,
                    others,
                    (done.len() * INSTRUCTION_SIZE) as Int,
                );
            },
            InterRep::Label(_) => {},
        }
    }
}

/// A program that assembles, and the same program with every label
/// reference written as the immediate of the label's offset, assemble to
/// the same instructions, and so to the same bytes.
pub proof fn lemma_labels_as_immediates(ir: Seq<InterRep>)
    requires
        compiled(ir) is Ok,
    ensures
        compiled(inlined(ir, label_map(ir))) == compiled(ir),
        encode_all(compiled(inlined(ir, label_map(ir)))->Ok_0) == encode_all(compiled(ir)->Ok_0),
{
    lemma_inlined_assemble(ir, label_map(ir), label_map(ir));
}

/// What a program assembles to depends only on what its elements say.
pub proof fn lemma_compiled_by_view(a: Seq<InterRep>, b: Seq<InterRep>)
    requires
        a.len() == b.len(),
        forall|i: int| 0 <= i < a.len() ==> a[i]@ == b[i]@,
    ensures
        compiled(a) == compiled(b),
{
    lemma_assemble_by_view(a, b, label_map(a));
}

/// Labels, instruction count and what assembles depend only on what the
/// elements of a program say.
pub proof fn lemma_assemble_by_view(a: Seq<InterRep>, b: Seq<InterRep>, labels: Map<Seq<char>, Int>)
    requires
        a.len() == b.len(),
        forall|i: int| 0 <= i < a.len() ==> a[i]@ == b[i]@,
    ensures
        label_map(a) == label_map(b),
        instruction_count(a) == instruction_count(b),
        assemble(a, labels) == assemble(b, labels),
    decreases a.len(),
{
    if a.len() > 0 {
        lemma_assemble_by_view(a.drop_last(), b.drop_last(), labels);
        assert(a.last()@ == b.last()@);
        match (a.last(), b.last()) {
            (InterRep::Instruction(x), InterRep::Instruction(y)) => {
                if let Ok(done) = assemble(a.drop_last(), labels) {
                    lemma_resolved_by_view(x, y, labels, (done.len() * INSTRUCTION_SIZE) as Int);
                }
            },
            _ => {},
        }
    }
}

/// A name has an offset exactly where the program defines a label of that
/// name.
pub proof fn lemma_label_defined(ir: Seq<InterRep>, name: Seq<char>)
    ensures
        label_map(ir).contains_key(name) <==> exists|j: int|
            0 <= j < ir.len() && (#[trigger] ir[j])@ == InterRepView::Label(name),
    decreases ir.len(),
{
    if ir.len() > 0 {
        let front = ir.drop_last();
        lemma_label_defined(front, name);
        if label_map(ir).contains_key(name) {
            if ir.last()@ == InterRepView::Label(name) {
                assert(ir[ir.len() - 1]@ == InterRepView::Label(name));
            } else {
                let j = choose|j: int|
                    0 <= j < front.len() && (#[trigger] front[j])@ == InterRepView::Label(name);
                assert(ir[j]@ == InterRepView::Label(name));
            }
        }
        if exists|j: int| 0 <= j < ir.len() && (#[trigger] ir[j])@ == InterRepView::Label(name) {
            let j = choose|j: int|
                0 <= j < ir.len() && (#[trigger] ir[j])@ == InterRepView::Label(name);
            if j < front.len() {
                assert(front[j]@ == InterRepView::Label(name));
            }
        }
    }
}

/// The offset of a name is that of its last definition: the number of
/// instructions before it, times the size of a slot.
pub proof fn lemma_label_offset(ir: Seq<InterRep>, j: int, name: Seq<char>)
    requires
        0 <= j < ir.len(),
        ir[j]@ == InterRepView::Label(name),
        forall|k: int| j < k < ir.len() ==> (#[trigger] ir[k])@ != InterRepView::Label(name),
    ensures
        label_map(ir).contains_key(name),
        label_map(ir)[name] == (instruction_count(ir.take(j)) * INSTRUCTION_SIZE) as Int,
    decreases ir.len(),
{
    let front = ir.drop_last();
    if j == ir.len() - 1 {
        assert(ir.take(j) =~= front);
    } else {
        assert(ir.last() == ir[ir.len() - 1]);
        assert(front.take(j) =~= ir.take(j));
        lemma_label_offset(front, j, name);
    }
}

} // verus!

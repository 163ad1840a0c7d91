use capvm::bytecode::{CRegister, Condition, GpRegister, Instruction, Opcode, Value};
use capvm::compile::{compile, CompileError};
use capvm::ir::{Convert, Env, InterRep, InterRepValue, IrInstruction};
use vstd::hash_map::StringHashMap;

fn imm(n: i16) -> InterRepValue {
    InterRepValue::ByteCodeValue(Value::Imm(n))
}

fn label_ref(name: &str) -> InterRepValue {
    InterRepValue::LabelRef(name.to_string())
}

fn label(name: &str) -> InterRep {
    InterRep::Label(name.to_string())
}

fn instr(i: IrInstruction) -> InterRep {
    InterRep::Instruction(i)
}

#[test]
fn an_empty_program_assembles_to_nothing() {
    assert_eq!(compile(vec![]), Ok(vec![]));
    assert_eq!(compile(vec![label("a"), label("b")]), Ok(vec![]));
}

#[test]
fn concrete_operands_pass_through() {
    let program = vec![
        instr(IrInstruction::Mov(GpRegister::R1, imm(5))),
        instr(IrInstruction::Not(GpRegister::R2)),
        instr(IrInstruction::Cond(
            GpRegister::R3,
            Condition::LE,
            InterRepValue::ByteCodeValue(Value::Reg(GpRegister::R4)),
        )),
        instr(IrInstruction::Store(imm(1), imm(2))),
        instr(IrInstruction::Pop(GpRegister::SP)),
    ];
    assert_eq!(
        compile(program),
        Ok(vec![
            Instruction::Mov(GpRegister::R1, Value::Imm(5)),
            Instruction::Not(GpRegister::R2),
            Instruction::Cond(GpRegister::R3, Condition::LE, Value::Reg(GpRegister::R4)),
            Instruction::Store(Value::Imm(1), Value::Imm(2)),
            Instruction::Pop(GpRegister::SP),
        ])
    );
}

#[test]
fn a_label_is_the_offset_of_the_next_instruction() {
    let program = vec![
        label("start"),
        instr(IrInstruction::Jmp(label_ref("end"))),
        instr(IrInstruction::Jmp(label_ref("middle"))),
        label("middle"),
        instr(IrInstruction::Jmp(label_ref("start"))),
        label("end"),
    ];
    assert_eq!(
        compile(program),
        Ok(vec![
            Instruction::Jmp(Value::Imm(36)),
            Instruction::Jmp(Value::Imm(24)),
            Instruction::Jmp(Value::Imm(0)),
        ])
    );
}

#[test]
fn the_last_definition_of_a_label_counts() {
    let program = vec![
        label("x"),
        instr(IrInstruction::Push(label_ref("x"))),
        label("x"),
        instr(IrInstruction::Push(label_ref("x"))),
        instr(IrInstruction::Push(label_ref("x"))),
        label("x"),
        label("y"),
        label("x"),
    ];
    assert_eq!(
        compile(program),
        Ok(vec![
            Instruction::Push(Value::Imm(36)),
            Instruction::Push(Value::Imm(36)),
            Instruction::Push(Value::Imm(36)),
        ])
    );
}

#[test]
fn here_is_the_offset_of_its_own_instruction() {
    let here = || InterRepValue::Here;
    let program = vec![
        label("a"),
        instr(IrInstruction::Mov(GpRegister::R0, here())),
        label("b"),
        label("c"),
        instr(IrInstruction::Store(here(), here())),
        instr(IrInstruction::Not(GpRegister::R0)),
        label("a"),
        instr(IrInstruction::Emit(here())),
    ];
    assert_eq!(
        compile(program),
        Ok(vec![
            Instruction::Mov(GpRegister::R0, Value::Imm(0)),
            Instruction::Store(Value::Imm(12), Value::Imm(12)),
            Instruction::Not(GpRegister::R0),
            Instruction::Emit(Value::Imm(36)),
        ])
    );
    let without_labels = vec![
        instr(IrInstruction::Mov(GpRegister::R0, here())),
        instr(IrInstruction::Store(here(), here())),
        instr(IrInstruction::Not(GpRegister::R0)),
        instr(IrInstruction::Emit(here())),
    ];
    assert_eq!(
        compile(without_labels).unwrap(),
        vec![
            Instruction::Mov(GpRegister::R0, Value::Imm(0)),
            Instruction::Store(Value::Imm(12), Value::Imm(12)),
            Instruction::Not(GpRegister::R0),
            Instruction::Emit(Value::Imm(36)),
        ]
    );
}

#[test]
fn labels_and_their_offsets_as_immediates_assemble_to_the_same_bytes() {
    let with_labels = vec![
        instr(IrInstruction::Mov(GpRegister::R1, imm(3))),
        label("top"),
        instr(IrInstruction::Sub(GpRegister::R1, imm(1))),
        instr(IrInstruction::Cond(GpRegister::R1, Condition::G, imm(0))),
        instr(IrInstruction::Jmp(label_ref("top"))),
        label("self"),
        instr(IrInstruction::Jmp(label_ref("self"))),
    ];
    let with_here = vec![
        instr(IrInstruction::Mov(GpRegister::R1, imm(3))),
        instr(IrInstruction::Sub(GpRegister::R1, imm(1))),
        instr(IrInstruction::Cond(GpRegister::R1, Condition::G, imm(0))),
        instr(IrInstruction::Jmp(imm(12))),
        instr(IrInstruction::Jmp(InterRepValue::Here)),
    ];
    let with_immediates = vec![
        instr(IrInstruction::Mov(GpRegister::R1, imm(3))),
        instr(IrInstruction::Sub(GpRegister::R1, imm(1))),
        instr(IrInstruction::Cond(GpRegister::R1, Condition::G, imm(0))),
        instr(IrInstruction::Jmp(imm(12))),
        instr(IrInstruction::Jmp(imm(48))),
    ];
    let a = compile(with_labels).unwrap();
    let b = compile(with_here).unwrap();
    let c = compile(with_immediates).unwrap();
    assert_eq!(a, c);
    assert_eq!(b, c);
    let bytes = |code: &Vec<Instruction>| -> Vec<u8> {
        code.iter().flat_map(|i| i.encode()).collect()
    };
    assert_eq!(bytes(&a), bytes(&c));
    assert_eq!(bytes(&b), bytes(&c));
    assert_eq!(bytes(&c).len(), 60);
}

#[test]
fn an_undefined_label_is_reported_by_name() {
    let program = vec![
        label("known"),
        instr(IrInstruction::Jmp(label_ref("known"))),
        instr(IrInstruction::Store(label_ref("first"), label_ref("second"))),
        instr(IrInstruction::Jmp(label_ref("third"))),
    ];
    assert_eq!(compile(program), Err(CompileError::UndefinedLabel("first".to_string())));
    let program = vec![
        instr(IrInstruction::Store(imm(0), label_ref("second"))),
        instr(IrInstruction::Jmp(label_ref("third"))),
        label("third"),
    ];
    assert_eq!(compile(program), Err(CompileError::UndefinedLabel("second".to_string())));
    let program = vec![instr(IrInstruction::Emit(label_ref("Known"))), label("known")];
    assert_eq!(compile(program), Err(CompileError::UndefinedLabel("Known".to_string())));
}

#[test]
fn the_largest_program_that_fits_the_word_assembles() {
    let mut program = Vec::new();
    for _ in 0..2730 {
        program.push(instr(IrInstruction::Jmp(InterRepValue::Here)));
    }
    program.push(label("end"));
    program.push(label("end"));
    program[0] = instr(IrInstruction::Jmp(label_ref("end")));
    let code = compile(program).unwrap();
    assert_eq!(code.len(), 2730);
    assert_eq!(code[0], Instruction::Jmp(Value::Imm(32760)));
    assert_eq!(code[2729], Instruction::Jmp(Value::Imm(32748)));
}

#[test]
fn operands_convert_against_an_environment() {
    let mut map = StringHashMap::new();
    map.insert("a".to_string(), 24);
    let env = Env { map: &map, position: 48 };
    assert_eq!(imm(-3).convert(&env), Ok(Value::Imm(-3)));
    assert_eq!(label_ref("a").convert(&env), Ok(Value::Imm(24)));
    assert_eq!(label_ref("b").convert(&env), Err("b".to_string()));
    assert_eq!(InterRepValue::Here.convert(&env), Ok(Value::Imm(48)));
    assert_eq!(GpRegister::R3.convert(&env), Ok(GpRegister::R3));
    assert_eq!(Condition::GE.convert(&env), Ok(Condition::GE));
    assert_eq!(CRegister::DD.convert(&env), Ok(CRegister::DD));
    assert_eq!(
        IrInstruction::Store(InterRepValue::Here, label_ref("a")).convert(&env),
        Ok(Instruction::Store(Value::Imm(48), Value::Imm(24)))
    );
    assert_eq!(
        IrInstruction::Store(label_ref("x"), label_ref("y")).convert(&env),
        Err("x".to_string())
    );
}

#[test]
fn instructions_are_built_from_their_parts() {
    let built = IrInstruction::build(Opcode::Cond, Some(GpRegister::R1), Some(Condition::L), Some(imm(2)), None);
    assert!(matches!(
        built,
        Some(IrInstruction::Cond(GpRegister::R1, Condition::L, InterRepValue::ByteCodeValue(Value::Imm(2))))
    ));
    assert!(IrInstruction::build(Opcode::Cond, Some(GpRegister::R1), None, Some(imm(2)), None).is_none());
    assert!(IrInstruction::build(Opcode::Not, Some(GpRegister::R1), None, Some(imm(2)), None).is_none());
    assert!(IrInstruction::build(Opcode::Store, None, None, Some(imm(2)), None).is_none());
    assert!(matches!(
        IrInstruction::build(Opcode::Pop, Some(GpRegister::SP), None, None, None),
        Some(IrInstruction::Pop(GpRegister::SP))
    ));
}

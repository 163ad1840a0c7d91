use capvm::bytecode::{Condition, GpRegister, Instruction, Opcode, Shape, Value, INSTRUCTION_SIZE};
use capvm::layout::Storable;

fn samples() -> Vec<Instruction> {
    let r = GpRegister::R3;
    let v = Value::Imm(-2);
    let w = Value::Reg(GpRegister::SP);
    vec![
        Instruction::Mov(r, v),
        Instruction::Add(r, w),
        Instruction::Sub(r, v),
        Instruction::Mul(r, w),
        Instruction::Div(r, v),
        Instruction::And(r, w),
        Instruction::Or(r, v),
        Instruction::Xor(r, w),
        Instruction::Not(r),
        Instruction::Load(r, v),
        Instruction::Store(v, w),
        Instruction::Jmp(w),
        Instruction::Push(v),
        Instruction::Pop(r),
        Instruction::Cond(r, Condition::GE, w),
        Instruction::Emit(v),
    ]
}

#[test]
fn a_slot_has_twelve_bytes_aligned_to_four() {
    assert_eq!(INSTRUCTION_SIZE, 12);
    assert_eq!(Instruction::size(), 12);
    assert_eq!(Instruction::align(), 4);
}

#[test]
fn opcodes_follow_the_order_of_the_instruction_set() {
    for (k, i) in samples().iter().enumerate() {
        assert_eq!(i.encode()[0], k as u8);
        assert_eq!(i.opcode().code(), k as u8);
    }
}

#[test]
fn operands_lie_in_textual_order() {
    let mov = Instruction::Mov(GpRegister::R2, Value::Imm(0x1234));
    assert_eq!(mov.encode(), [0, 2, 0, 0, 1, 0, 0x34, 0x12, 0, 0, 0, 0]);
    let store = Instruction::Store(Value::Imm(-1), Value::Reg(GpRegister::R5));
    assert_eq!(store.encode(), [10, 0, 0, 0, 1, 0, 255, 255, 0, 5, 0, 0]);
    let cond = Instruction::Cond(GpRegister::SP, Condition::G, Value::Reg(GpRegister::R1));
    assert_eq!(cond.encode(), [14, 7, 4, 0, 0, 1, 0, 0, 0, 0, 0, 0]);
    let not = Instruction::Not(GpRegister::R6);
    assert_eq!(not.encode(), [8, 6, 0, 0, 0, 0, 0, 0, 0, 0, 0, 0]);
}

#[test]
fn every_instruction_decodes_from_its_own_slot() {
    for i in samples() {
        let slot = i.encode();
        assert_eq!(Instruction::decode(&slot, 0), Some(i));
        let mut buf = [0x55u8; 20];
        i.write_to(&mut buf, 4);
        assert_eq!(&buf[..4], &[0x55; 4]);
        assert_eq!(&buf[4..16], &slot);
        assert_eq!(&buf[16..], &[0x55; 4]);
        assert_eq!(Instruction::read_from(&buf, 4), Some(i));
    }
}

#[test]
fn zero_bytes_decode_as_a_move_of_a_register_to_itself() {
    let zero = [0u8; 12];
    assert_eq!(
        Instruction::decode(&zero, 0),
        Some(Instruction::Mov(GpRegister::R0, Value::Reg(GpRegister::R0)))
    );
}

#[test]
fn bytes_that_are_no_slot_decode_to_nothing() {
    let good = Instruction::Mov(GpRegister::R2, Value::Imm(7)).encode();
    let mut unknown_opcode = good;
    unknown_opcode[0] = 16;
    assert_eq!(Instruction::decode(&unknown_opcode, 0), None);
    let mut unknown_register = good;
    unknown_register[1] = 8;
    assert_eq!(Instruction::decode(&unknown_register, 0), None);
    let mut stray_condition = good;
    stray_condition[2] = 1;
    assert_eq!(Instruction::decode(&stray_condition, 0), None);
    let mut stray_padding = good;
    stray_padding[3] = 1;
    assert_eq!(Instruction::decode(&stray_padding, 0), None);
    let mut unknown_kind = good;
    unknown_kind[4] = 2;
    assert_eq!(Instruction::decode(&unknown_kind, 0), None);
    let mut stray_register_in_immediate = good;
    stray_register_in_immediate[5] = 1;
    assert_eq!(Instruction::decode(&stray_register_in_immediate, 0), None);
    let mut stray_second_operand = good;
    stray_second_operand[11] = 9;
    assert_eq!(Instruction::decode(&stray_second_operand, 0), None);
    let mut unknown_condition = Instruction::Cond(
        GpRegister::R0,
        Condition::L,
        Value::Imm(0),
    ).encode();
    unknown_condition[2] = 5;
    assert_eq!(Instruction::decode(&unknown_condition, 0), None);
    let mut immediate_in_register = Instruction::Jmp(Value::Reg(GpRegister::R1)).encode();
    immediate_in_register[6] = 1;
    assert_eq!(Instruction::decode(&immediate_in_register, 0), None);
}

#[test]
fn opcodes_know_their_operands() {
    assert_eq!(Opcode::Mov.shape(), Shape::RegValue);
    assert_eq!(Opcode::Load.shape(), Shape::RegValue);
    assert_eq!(Opcode::Not.shape(), Shape::Reg);
    assert_eq!(Opcode::Pop.shape(), Shape::Reg);
    assert_eq!(Opcode::Store.shape(), Shape::ValueValue);
    assert_eq!(Opcode::Jmp.shape(), Shape::Value);
    assert_eq!(Opcode::Push.shape(), Shape::Value);
    assert_eq!(Opcode::Emit.shape(), Shape::Value);
    assert_eq!(Opcode::Cond.shape(), Shape::RegCondValue);
}

#[test]
fn condition_codes_are_numbered_in_order() {
    let all = [Condition::L, Condition::LE, Condition::E, Condition::GE, Condition::G];
    for (k, c) in all.iter().enumerate() {
        assert_eq!(c.index(), k as u8);
        assert_eq!(Condition::from_index(k as u8), Some(*c));
    }
    assert_eq!(Condition::from_index(5), None);
}

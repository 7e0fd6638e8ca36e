use nn_accel::compute::ComputeOperation;
use nn_accel::device::instruction::{InstructionBuilder, VliwCommand, VliwInstruction};
use nn_accel::instructions::FpgaInstruction;

#[test]
fn test_instruction_builder() {
    let inst = InstructionBuilder::new()
        .add_op(VliwCommand::LoadV0)
        .add_op(VliwCommand::MatrixVectorMultiply)
        .add_op(VliwCommand::StoreV0)
        .build();

    assert!(matches!(inst.op1, VliwCommand::LoadV0));
    assert!(matches!(inst.op2, VliwCommand::MatrixVectorMultiply));
    assert!(matches!(inst.op3, VliwCommand::StoreV0));
    assert!(matches!(inst.op4, VliwCommand::Nop));
}

#[test]
fn test_single_instruction() {
    let inst = VliwInstruction::single(VliwCommand::MatrixVectorMultiply);
    assert!(matches!(inst.op1, VliwCommand::MatrixVectorMultiply));
    assert!(matches!(inst.op2, VliwCommand::Nop));
    assert!(matches!(inst.op3, VliwCommand::Nop));
    assert!(matches!(inst.op4, VliwCommand::Nop));
}

#[test]
fn test_pop_v0_instruction() {
    let inst = VliwInstruction::single(VliwCommand::PopV0);
    assert!(matches!(inst.op1, VliwCommand::PopV0));
    assert!(matches!(inst.op2, VliwCommand::Nop));
    assert!(matches!(inst.op3, VliwCommand::Nop));
    assert!(matches!(inst.op4, VliwCommand::Nop));
}

#[test]
fn test_builder_ignores_fifth_op() {
    let inst = InstructionBuilder::new()
        .add_op(VliwCommand::LoadV0)
        .add_op(VliwCommand::LoadV1)
        .add_op(VliwCommand::VectorAdd01)
        .add_op(VliwCommand::StoreV0)
        .add_op(VliwCommand::VectorSquare)
        .build();
    assert!(matches!(inst.op4, VliwCommand::StoreV0));
}

#[test]
fn test_vliw_instruction_pack() {
    let vliw = nn_accel::instructions::VliwInstruction::new(
        FpgaInstruction::LoadV0,
        FpgaInstruction::MatrixVectorMul,
        FpgaInstruction::StoreV0,
        FpgaInstruction::Nop,
    );
    let packed = vliw.pack();

    let expected = (0b01000 << 24) | (0b00001 << 16) | (0b01011 << 8) | 0b00000;
    assert_eq!(packed, expected);
}

#[test]
fn test_compute_operation_mapping() {
    let op = ComputeOperation::MatrixVectorMultiply;
    let inst: FpgaInstruction = op.into();
    assert_eq!(inst, FpgaInstruction::MatrixVectorMul);
}

#[test]
fn test_vliw_from_single_pack() {
    let vliw = nn_accel::instructions::VliwInstruction::from_single(FpgaInstruction::VectorRelu);
    assert_eq!(vliw.pack(), 0b10100 << 24);
}

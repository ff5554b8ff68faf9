use chip8::instruction::ALUOperation;

#[test]
fn add_carries_and_wraps() {
    assert_eq!(ALUOperation::Add.perform(0xFF, 0x01, false), (0x00, Some(1)));
    assert_eq!(ALUOperation::Add.perform(0x01, 0x01, false), (0x02, Some(0)));
}

#[test]
fn subtract_reports_no_borrow_flag() {
    assert_eq!(ALUOperation::Sub.perform(0x05, 0x03, false), (0x02, Some(1)));
    assert_eq!(ALUOperation::Sub.perform(0x03, 0x05, false), (0xFE, Some(0)));
    assert_eq!(ALUOperation::Sub.perform(0x05, 0x05, false), (0x00, Some(1)));
}

#[test]
fn reverse_subtract_swaps_operands() {
    assert_eq!(ALUOperation::SubAndNegate.perform(0x03, 0x05, false), (0x02, Some(1)));
    assert_eq!(ALUOperation::SubAndNegate.perform(0x05, 0x03, false), (0xFE, Some(0)));
}

#[test]
fn set_and_bitwise_ops_have_no_flag() {
    assert_eq!(ALUOperation::SetValue.perform(0xAA, 0x55, false), (0x55, None));
    assert_eq!(ALUOperation::BitwiseOr.perform(0xF0, 0x0F, false), (0xFF, None));
    assert_eq!(ALUOperation::BitwiseAnd.perform(0xF0, 0x3C, false), (0x30, None));
    assert_eq!(ALUOperation::BitwiseXor.perform(0xF0, 0x3C, false), (0xCC, None));
}

#[test]
fn shift_left_uses_operand_selected_by_mode() {
    // Compatibility mode off: the left operand is shifted, flag is its bit 7.
    assert_eq!(ALUOperation::ShiftLeft.perform(0x81, 0x01, false), (0x02, Some(1)));
    assert_eq!(ALUOperation::ShiftLeft.perform(0x41, 0x81, false), (0x82, Some(0)));
    // Compatibility mode on: the right operand is shifted instead.
    assert_eq!(ALUOperation::ShiftLeft.perform(0x01, 0x81, true), (0x02, Some(1)));
    assert_eq!(ALUOperation::ShiftLeft.perform(0x81, 0x41, true), (0x82, Some(0)));
}

#[test]
fn shift_right_uses_operand_selected_by_mode() {
    assert_eq!(ALUOperation::ShiftRight.perform(0x05, 0x02, false), (0x02, Some(1)));
    assert_eq!(ALUOperation::ShiftRight.perform(0x04, 0x03, false), (0x02, Some(0)));
    assert_eq!(ALUOperation::ShiftRight.perform(0x02, 0x05, true), (0x02, Some(1)));
    assert_eq!(ALUOperation::ShiftRight.perform(0x03, 0x04, true), (0x02, Some(0)));
}

use chip8::instruction::{ALUOperation, Instruction, OpCode, OperandType};

#[test]
fn decode_extracts_all_operand_fields() {
    let i = Instruction::decode(0xD123);
    assert_eq!(i.x_register_index, 0x1);
    assert_eq!(i.y_register_index, 0x2);
    assert_eq!(i.immediate_half_byte, 0x3);
    assert_eq!(i.immediate_byte, 0x23);
    assert_eq!(i.immediate_word, 0x123);
    assert!(matches!(i.op_code, OpCode::DrawSprite));
}

#[test]
fn decode_full_word_literals() {
    assert_eq!(OpCode::decode(0x00E0), OpCode::ClearDisplay);
    assert_eq!(OpCode::decode(0x00EE), OpCode::ReturnFromSubroutine);
}

#[test]
fn decode_jump_call_and_skip_classes() {
    assert_eq!(OpCode::decode(0x1234), OpCode::JumpAbsolute);
    assert_eq!(OpCode::decode(0x2345), OpCode::CallSubroutine);
    assert_eq!(
        OpCode::decode(0x3455),
        OpCode::SkipIfEqual { operand_type: OperandType::Immediate }
    );
    assert_eq!(
        OpCode::decode(0x4455),
        OpCode::SkipIfNotEqual { operand_type: OperandType::Immediate }
    );
    assert_eq!(
        OpCode::decode(0x5450),
        OpCode::SkipIfEqual { operand_type: OperandType::Register }
    );
    assert_eq!(
        OpCode::decode(0x9450),
        OpCode::SkipIfNotEqual { operand_type: OperandType::Register }
    );
    assert_eq!(OpCode::decode(0xB123), OpCode::JumpWithOffset);
}

#[test]
fn decode_arithmetic_class() {
    assert_eq!(
        OpCode::decode(0x6455),
        OpCode::ArithmeticLogic {
            operand_type: OperandType::Immediate,
            operation: ALUOperation::SetValue
        }
    );
    assert_eq!(
        OpCode::decode(0x7455),
        OpCode::ArithmeticLogic {
            operand_type: OperandType::Immediate,
            operation: ALUOperation::Add
        }
    );
    let register_ops = [
        (0x8120, ALUOperation::SetValue),
        (0x8121, ALUOperation::BitwiseOr),
        (0x8122, ALUOperation::BitwiseAnd),
        (0x8123, ALUOperation::BitwiseXor),
        (0x8124, ALUOperation::Add),
        (0x8125, ALUOperation::Sub),
        (0x8126, ALUOperation::ShiftRight),
        (0x8127, ALUOperation::SubAndNegate),
        (0x812E, ALUOperation::ShiftLeft),
    ];
    for (word, operation) in register_ops {
        assert_eq!(
            OpCode::decode(word),
            OpCode::ArithmeticLogic { operand_type: OperandType::Register, operation }
        );
    }
}

#[test]
fn decode_index_draw_rand_and_key_classes() {
    assert_eq!(OpCode::decode(0xA123), OpCode::SetIndexRegister);
    assert_eq!(OpCode::decode(0xC123), OpCode::Rand);
    assert_eq!(OpCode::decode(0xD123), OpCode::DrawSprite);
    assert_eq!(OpCode::decode(0xE19E), OpCode::SkipIfKeyPressed);
    assert_eq!(OpCode::decode(0xE1A1), OpCode::SkipIfKeyNotPressed);
}

#[test]
fn decode_register_utility_class() {
    assert_eq!(OpCode::decode(0xF107), OpCode::ReadDelayRegister);
    assert_eq!(OpCode::decode(0xF10A), OpCode::WaitForKeyPress);
    assert_eq!(OpCode::decode(0xF115), OpCode::SetDelayRegister);
    assert_eq!(OpCode::decode(0xF118), OpCode::SetSoundRegister);
    assert_eq!(OpCode::decode(0xF11E), OpCode::AddToIndexRegister);
    assert_eq!(OpCode::decode(0xF129), OpCode::SetIndexRegisterToFont);
    assert_eq!(OpCode::decode(0xF133), OpCode::DecodeBCD);
    assert_eq!(OpCode::decode(0xF155), OpCode::SaveRegisters);
    assert_eq!(OpCode::decode(0xF165), OpCode::LoadRegisters);
}

#[test]
fn decode_unrecognized_words() {
    assert_eq!(OpCode::decode(0xFFFF), OpCode::Unknown(0xFFFF));
    assert_eq!(OpCode::decode(0x5451), OpCode::Unknown(0x5451));
    assert_eq!(OpCode::decode(0x8128), OpCode::Unknown(0x8128));
    assert_eq!(OpCode::decode(0x9455), OpCode::Unknown(0x9455));
    assert_eq!(OpCode::decode(0xE100), OpCode::Unknown(0xE100));
    assert_eq!(OpCode::decode(0xF100), OpCode::Unknown(0xF100));
    assert_eq!(OpCode::decode(0x0123), OpCode::Unknown(0x0123));
}

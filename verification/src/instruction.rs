//! Instruction decoding and the arithmetic/logic unit.
//!
//! A machine instruction is one 16-bit word.  Decoding extracts the operand
//! fields (always, whether or not the selected operation uses them) and
//! classifies the word into one of the recognized opcode classes, or
//! `OpCode::Unknown` carrying the raw word.

use vstd::prelude::*;

verus! {

/// Whether the second operand of a skip or ALU instruction comes from a
/// register or from the instruction's 8-bit immediate field.
#[derive(Clone, Copy, Debug, PartialEq, Eq, Structural)]
pub enum OperandType {
    Register,
    Immediate,
}

/// The seven two-operand arithmetic/logic operations, plus plain assignment
/// and the reverse-operand subtraction.
#[derive(Clone, Copy, Debug, PartialEq, Eq, Structural)]
pub enum ALUOperation {
    SetValue,
    Add,
    Sub,
    SubAndNegate,
    BitwiseOr,
    BitwiseAnd,
    BitwiseXor,
    ShiftLeft,
    ShiftRight,
}

/// The recognized opcode classes.  A word matching none of them decodes to
/// `Unknown`, carrying the raw word for diagnostics.
#[derive(Clone, Copy, Debug, PartialEq, Eq, Structural)]
pub enum OpCode {
    ClearDisplay,
    DrawSprite,
    ReturnFromSubroutine,
    JumpAbsolute,
    JumpWithOffset,
    CallSubroutine,
    SkipIfEqual { operand_type: OperandType },
    SkipIfNotEqual { operand_type: OperandType },
    ArithmeticLogic { operand_type: OperandType, operation: ALUOperation },
    SetIndexRegister,
    AddToIndexRegister,
    SetIndexRegisterToFont,
    SetDelayRegister,
    SetSoundRegister,
    ReadDelayRegister,
    SkipIfKeyPressed,
    SkipIfKeyNotPressed,
    WaitForKeyPress,
    DecodeBCD,
    SaveRegisters,
    LoadRegisters,
    Rand,
    Unknown(u16),
}

/// A decoded instruction: the opcode class together with every operand field.
/// All fields are extracted from the word regardless of which ones the
/// operation uses; the executor ignores the rest.
#[derive(Clone, Copy, Debug, PartialEq, Eq, Structural)]
pub struct Instruction {
    pub op_code: OpCode,
    pub x_register_index: usize,
    pub y_register_index: usize,
    pub immediate_half_byte: u8,
    pub immediate_byte: u8,
    pub immediate_word: u16,
}

/// The X register index of an instruction word: bits 8 to 11.
pub open spec fn x_of(word: u16) -> u16 {
    (word >> 8) & 0xF
}

/// The Y register index of an instruction word: bits 4 to 7.
pub open spec fn y_of(word: u16) -> u16 {
    (word >> 4) & 0xF
}

/// The 4-bit immediate of an instruction word: bits 0 to 3.
pub open spec fn n_of(word: u16) -> u16 {
    word & 0xF
}

/// The 8-bit immediate of an instruction word: bits 0 to 7.
pub open spec fn kk_of(word: u16) -> u16 {
    word & 0xFF
}

/// The 12-bit immediate of an instruction word: bits 0 to 11.
pub open spec fn nnn_of(word: u16) -> u16 {
    word & 0xFFF
}

/// The opcode class of an instruction word: dispatch on the top nibble, with
/// two full-word literal exceptions and, for three classes, a secondary
/// dispatch on the bottom nibble or byte.
pub open spec fn opcode_spec(word: u16) -> OpCode {
    if word == 0x00E0 {
        OpCode::ClearDisplay
    } else if word == 0x00EE {
        OpCode::ReturnFromSubroutine
    } else {
        let hi = word >> 12;
        let lo = word & 0xF;
        let lob = word & 0xFF;
        if hi == 0x1 {
            OpCode::JumpAbsolute
        } else if hi == 0x2 {
            OpCode::CallSubroutine
        } else if hi == 0x3 {
            OpCode::SkipIfEqual { operand_type: OperandType::Immediate }
        } else if hi == 0x4 {
            OpCode::SkipIfNotEqual { operand_type: OperandType::Immediate }
        } else if hi == 0x5 && lo == 0x0 {
            OpCode::SkipIfEqual { operand_type: OperandType::Register }
        } else if hi == 0x6 {
            OpCode::ArithmeticLogic {
                operand_type: OperandType::Immediate,
                operation: ALUOperation::SetValue,
            }
        } else if hi == 0x7 {
            OpCode::ArithmeticLogic {
                operand_type: OperandType::Immediate,
                operation: ALUOperation::Add,
            }
        } else if hi == 0x8 && lo == 0x0 {
            OpCode::ArithmeticLogic {
                operand_type: OperandType::Register,
                operation: ALUOperation::SetValue,
            }
        } else if hi == 0x8 && lo == 0x1 {
            OpCode::ArithmeticLogic {
                operand_type: OperandType::Register,
                operation: ALUOperation::BitwiseOr,
            }
        } else if hi == 0x8 && lo == 0x2 {
            OpCode::ArithmeticLogic {
                operand_type: OperandType::Register,
                operation: ALUOperation::BitwiseAnd,
            }
        } else if hi == 0x8 && lo == 0x3 {
            OpCode::ArithmeticLogic {
                operand_type: OperandType::Register,
                operation: ALUOperation::BitwiseXor,
            }
        } else if hi == 0x8 && lo == 0x4 {
            OpCode::ArithmeticLogic {
                operand_type: OperandType::Register,
                operation: ALUOperation::Add,
            }
        } else if hi == 0x8 && lo == 0x5 {
            OpCode::ArithmeticLogic {
                operand_type: OperandType::Register,
                operation: ALUOperation::Sub,
            }
        } else if hi == 0x8 && lo == 0x6 {
            OpCode::ArithmeticLogic {
                operand_type: OperandType::Register,
                operation: ALUOperation::ShiftRight,
            }
        } else if hi == 0x8 && lo == 0x7 {
            OpCode::ArithmeticLogic {
                operand_type: OperandType::Register,
                operation: ALUOperation::SubAndNegate,
            }
        } else if hi == 0x8 && lo == 0xE {
            OpCode::ArithmeticLogic {
                operand_type: OperandType::Register,
                operation: ALUOperation::ShiftLeft,
            }
        } else if hi == 0x9 && lo == 0x0 {
            OpCode::SkipIfNotEqual { operand_type: OperandType::Register }
        } else if hi == 0xA {
            OpCode::SetIndexRegister
        } else if hi == 0xB {
            OpCode::JumpWithOffset
        } else if hi == 0xC {
            OpCode::Rand
        } else if hi == 0xD {
            OpCode::DrawSprite
        } else if hi == 0xE && lob == 0x9E {
            OpCode::SkipIfKeyPressed
        } else if hi == 0xE && lob == 0xA1 {
            OpCode::SkipIfKeyNotPressed
        } else if hi == 0xF && lob == 0x07 {
            OpCode::ReadDelayRegister
        } else if hi == 0xF && lob == 0x0A {
            OpCode::WaitForKeyPress
        } else if hi == 0xF && lob == 0x15 {
            OpCode::SetDelayRegister
        } else if hi == 0xF && lob == 0x18 {
            OpCode::SetSoundRegister
        } else if hi == 0xF && lob == 0x1E {
            OpCode::AddToIndexRegister
        } else if hi == 0xF && lob == 0x29 {
            OpCode::SetIndexRegisterToFont
        } else if hi == 0xF && lob == 0x33 {
            OpCode::DecodeBCD
        } else if hi == 0xF && lob == 0x55 {
            OpCode::SaveRegisters
        } else if hi == 0xF && lob == 0x65 {
            OpCode::LoadRegisters
        } else {
            OpCode::Unknown(word)
        }
    }
}

/// The decoded form of an instruction word: the opcode class and the five
/// operand fields, each given by its fixed bit-extraction formula.
pub open spec fn instruction_spec(word: u16) -> Instruction {
    Instruction {
        op_code: opcode_spec(word),
        x_register_index: x_of(word) as usize,
        y_register_index: y_of(word) as usize,
        immediate_half_byte: n_of(word) as u8,
        immediate_byte: kk_of(word) as u8,
        immediate_word: nnn_of(word),
    }
}

impl OpCode {
    /// Classifies an instruction word.
    pub fn decode(word: u16) -> (r: OpCode)
        ensures
            r == opcode_spec(word),
    {
        if word == 0x00E0 {
            return OpCode::ClearDisplay;
        }
        if word == 0x00EE {
            return OpCode::ReturnFromSubroutine;
        }
        let hi = word >> 12;
        let lo = word & 0xF;
        let lob = word & 0xFF;
        if hi == 0x1 {
            OpCode::JumpAbsolute
        } else if hi == 0x2 {
            OpCode::CallSubroutine
        } else if hi == 0x3 {
            OpCode::SkipIfEqual { operand_type: OperandType::Immediate }
        } else if hi == 0x4 {
            OpCode::SkipIfNotEqual { operand_type: OperandType::Immediate }
        } else if hi == 0x5 && lo == 0x0 {
            OpCode::SkipIfEqual { operand_type: OperandType::Register }
        } else if hi == 0x6 {
            OpCode::ArithmeticLogic {
                operand_type: OperandType::Immediate,
                operation: ALUOperation::SetValue,
            }
        } else if hi == 0x7 {
            OpCode::ArithmeticLogic {
                operand_type: OperandType::Immediate,
                operation: ALUOperation::Add,
            }
        } else if hi == 0x8 && lo == 0x0 {
            OpCode::ArithmeticLogic {
                operand_type: OperandType::Register,
                operation: ALUOperation::SetValue,
            }
        } else if hi == 0x8 && lo == 0x1 {
            OpCode::ArithmeticLogic {
                operand_type: OperandType::Register,
                operation: ALUOperation::BitwiseOr,
            }
        } else if hi == 0x8 && lo == 0x2 {
            OpCode::ArithmeticLogic {
                operand_type: OperandType::Register,
                operation: ALUOperation::BitwiseAnd,
            }
        } else if hi == 0x8 && lo == 0x3 {
            OpCode::ArithmeticLogic {
                operand_type: OperandType::Register,
                operation: ALUOperation::BitwiseXor,
            }
        } else if hi == 0x8 && lo == 0x4 {
            OpCode::ArithmeticLogic {
                operand_type: OperandType::Register,
                operation: ALUOperation::Add,
            }
        } else if hi == 0x8 && lo == 0x5 {
            OpCode::ArithmeticLogic {
                operand_type: OperandType::Register,
                operation: ALUOperation::Sub,
            }
        } else if hi == 0x8 && lo == 0x6 {
            OpCode::ArithmeticLogic {
                operand_type: OperandType::Register,
                operation: ALUOperation::ShiftRight,
            }
        } else if hi == 0x8 && lo == 0x7 {
            OpCode::ArithmeticLogic {
                operand_type: OperandType::Register,
                operation: ALUOperation::SubAndNegate,
            }
        } else if hi == 0x8 && lo == 0xE {
            OpCode::ArithmeticLogic {
                operand_type: OperandType::Register,
                operation: ALUOperation::ShiftLeft,
            }
        } else if hi == 0x9 && lo == 0x0 {
            OpCode::SkipIfNotEqual { operand_type: OperandType::Register }
        } else if hi == 0xA {
            OpCode::SetIndexRegister
        } else if hi == 0xB {
            OpCode::JumpWithOffset
        } else if hi == 0xC {
            OpCode::Rand
        } else if hi == 0xD {
            OpCode::DrawSprite
        } else if hi == 0xE && lob == 0x9E {
            OpCode::SkipIfKeyPressed
        } else if hi == 0xE && lob == 0xA1 {
            OpCode::SkipIfKeyNotPressed
        } else if hi == 0xF && lob == 0x07 {
            OpCode::ReadDelayRegister
        } else if hi == 0xF && lob == 0x0A {
            OpCode::WaitForKeyPress
        } else if hi == 0xF && lob == 0x15 {
            OpCode::SetDelayRegister
        } else if hi == 0xF && lob == 0x18 {
            OpCode::SetSoundRegister
        } else if hi == 0xF && lob == 0x1E {
            OpCode::AddToIndexRegister
        } else if hi == 0xF && lob == 0x29 {
            OpCode::SetIndexRegisterToFont
        } else if hi == 0xF && lob == 0x33 {
            OpCode::DecodeBCD
        } else if hi == 0xF && lob == 0x55 {
            OpCode::SaveRegisters
        } else if hi == 0xF && lob == 0x65 {
            OpCode::LoadRegisters
        } else {
            OpCode::Unknown(word)
        }
    }
}

impl Instruction {
    /// Decodes an instruction word into its opcode class and operand fields.
    pub fn decode(word: u16) -> (r: Instruction)
        ensures
            r == instruction_spec(word),
    {
        Instruction {
            op_code: OpCode::decode(word),
            x_register_index: ((word >> 8) & 0xF) as usize,
            y_register_index: ((word >> 4) & 0xF) as usize,
            immediate_half_byte: (word & 0xF) as u8,
            immediate_byte: (word & 0xFF) as u8,
            immediate_word: word & 0xFFF,
        }
    }
}

/// The operand a shift operation acts on: the Y-register value in
/// compatibility mode, the X-register value otherwise.
pub open spec fn shift_operand(lhs: u8, rhs: u8, compatibility_mode: bool) -> u8 {
    if compatibility_mode {
        rhs
    } else {
        lhs
    }
}

/// Subtraction modulo 256.
pub open spec fn wrapping_diff(a: u8, b: u8) -> u8 {
    if a >= b {
        (a - b) as u8
    } else {
        (a - b + 256) as u8
    }
}

/// The 8-bit result of an ALU operation.
pub open spec fn alu_result(op: ALUOperation, lhs: u8, rhs: u8, compatibility_mode: bool) -> u8 {
    match op {
        ALUOperation::SetValue => rhs,
        ALUOperation::Add => ((lhs + rhs) % 256) as u8,
        ALUOperation::Sub => wrapping_diff(lhs, rhs),
        ALUOperation::SubAndNegate => wrapping_diff(rhs, lhs),
        ALUOperation::BitwiseOr => lhs | rhs,
        ALUOperation::BitwiseAnd => lhs & rhs,
        ALUOperation::BitwiseXor => lhs ^ rhs,
        ALUOperation::ShiftLeft => ((shift_operand(lhs, rhs, compatibility_mode) * 2) % 256) as u8,
        ALUOperation::ShiftRight => shift_operand(lhs, rhs, compatibility_mode) / 2,
    }
}

/// The flag an ALU operation produces: carry for addition, "no borrow
/// occurred" for the subtractions, the shifted-out bit for the shifts, and
/// none for assignment and the bitwise operations.
pub open spec fn alu_flag(op: ALUOperation, lhs: u8, rhs: u8, compatibility_mode: bool) -> Option<
    u8,
> {
    match op {
        ALUOperation::SetValue => None,
        ALUOperation::Add => Some(if lhs + rhs > 255 { 1u8 } else { 0u8 }),
        ALUOperation::Sub => Some(if lhs >= rhs { 1u8 } else { 0u8 }),
        ALUOperation::SubAndNegate => Some(if rhs >= lhs { 1u8 } else { 0u8 }),
        ALUOperation::BitwiseOr => None,
        ALUOperation::BitwiseAnd => None,
        ALUOperation::BitwiseXor => None,
        ALUOperation::ShiftLeft => Some(
            if shift_operand(lhs, rhs, compatibility_mode) >= 0x80 { 1u8 } else { 0u8 },
        ),
        ALUOperation::ShiftRight => Some(shift_operand(lhs, rhs, compatibility_mode) % 2),
    }
}

/// A word assembled from a class nibble and the three operand nibbles.
pub open spec fn word_of(c: u16, x: u16, y: u16, n: u16) -> u16 {
    ((c << 12) | (x << 8)) | ((y << 4) | n)
}

/// Decoder round trip: a word assembled from a class nibble and operand
/// nibbles recovers exactly those nibbles through the fixed bit-extraction
/// formulas, and decodes to the opcode class the instruction layout assigns
/// that combination.
pub proof fn lemma_decoder_round_trip(c: u16, x: u16, y: u16, n: u16)
    requires
        c < 16,
        x < 16,
        y < 16,
        n < 16,
    ensures
        x_of(word_of(c, x, y, n)) == x,
        y_of(word_of(c, x, y, n)) == y,
        n_of(word_of(c, x, y, n)) == n,
        kk_of(word_of(c, x, y, n)) == y * 16 + n,
        nnn_of(word_of(c, x, y, n)) == x * 256 + y * 16 + n,
        c == 0x0 && x == 0x0 && y == 0xE && n == 0x0 ==> opcode_spec(word_of(c, x, y, n))
            == OpCode::ClearDisplay,
        c == 0x0 && x == 0x0 && y == 0xE && n == 0xE ==> opcode_spec(word_of(c, x, y, n))
            == OpCode::ReturnFromSubroutine,
        c == 0x1 ==> opcode_spec(word_of(c, x, y, n)) == OpCode::JumpAbsolute,
        c == 0x2 ==> opcode_spec(word_of(c, x, y, n)) == OpCode::CallSubroutine,
        c == 0x3 ==> opcode_spec(word_of(c, x, y, n)) == (OpCode::SkipIfEqual {
            operand_type: OperandType::Immediate,
        }),
        c == 0x4 ==> opcode_spec(word_of(c, x, y, n)) == (OpCode::SkipIfNotEqual {
            operand_type: OperandType::Immediate,
        }),
        c == 0x5 && n == 0x0 ==> opcode_spec(word_of(c, x, y, n)) == (OpCode::SkipIfEqual {
            operand_type: OperandType::Register,
        }),
        c == 0x6 ==> opcode_spec(word_of(c, x, y, n)) == (OpCode::ArithmeticLogic {
            operand_type: OperandType::Immediate,
            operation: ALUOperation::SetValue,
        }),
        c == 0x7 ==> opcode_spec(word_of(c, x, y, n)) == (OpCode::ArithmeticLogic {
            operand_type: OperandType::Immediate,
            operation: ALUOperation::Add,
        }),
        c == 0x8 && n == 0x0 ==> opcode_spec(word_of(c, x, y, n)) == (OpCode::ArithmeticLogic {
            operand_type: OperandType::Register,
            operation: ALUOperation::SetValue,
        }),
        c == 0x8 && n == 0x1 ==> opcode_spec(word_of(c, x, y, n)) == (OpCode::ArithmeticLogic {
            operand_type: OperandType::Register,
            operation: ALUOperation::BitwiseOr,
        }),
        c == 0x8 && n == 0x2 ==> opcode_spec(word_of(c, x, y, n)) == (OpCode::ArithmeticLogic {
            operand_type: OperandType::Register,
            operation: ALUOperation::BitwiseAnd,
        }),
        c == 0x8 && n == 0x3 ==> opcode_spec(word_of(c, x, y, n)) == (OpCode::ArithmeticLogic {
            operand_type: OperandType::Register,
            operation: ALUOperation::BitwiseXor,
        }),
        c == 0x8 && n == 0x4 ==> opcode_spec(word_of(c, x, y, n)) == (OpCode::ArithmeticLogic {
            operand_type: OperandType::Register,
            operation: ALUOperation::Add,
        }),
        c == 0x8 && n == 0x5 ==> opcode_spec(word_of(c, x, y, n)) == (OpCode::ArithmeticLogic {
            operand_type: OperandType::Register,
            operation: ALUOperation::Sub,
        }),
        c == 0x8 && n == 0x6 ==> opcode_spec(word_of(c, x, y, n)) == (OpCode::ArithmeticLogic {
            operand_type: OperandType::Register,
            operation: ALUOperation::ShiftRight,
        }),
        c == 0x8 && n == 0x7 ==> opcode_spec(word_of(c, x, y, n)) == (OpCode::ArithmeticLogic {
            operand_type: OperandType::Register,
            operation: ALUOperation::SubAndNegate,
        }),
        c == 0x8 && n == 0xE ==> opcode_spec(word_of(c, x, y, n)) == (OpCode::ArithmeticLogic {
            operand_type: OperandType::Register,
            operation: ALUOperation::ShiftLeft,
        }),
        c == 0x9 && n == 0x0 ==> opcode_spec(word_of(c, x, y, n)) == (OpCode::SkipIfNotEqual {
            operand_type: OperandType::Register,
        }),
        c == 0xA ==> opcode_spec(word_of(c, x, y, n)) == OpCode::SetIndexRegister,
        c == 0xB ==> opcode_spec(word_of(c, x, y, n)) == OpCode::JumpWithOffset,
        c == 0xC ==> opcode_spec(word_of(c, x, y, n)) == OpCode::Rand,
        c == 0xD ==> opcode_spec(word_of(c, x, y, n)) == OpCode::DrawSprite,
        c == 0xE && y == 0x9 && n == 0xE ==> opcode_spec(word_of(c, x, y, n))
            == OpCode::SkipIfKeyPressed,
        c == 0xE && y == 0xA && n == 0x1 ==> opcode_spec(word_of(c, x, y, n))
            == OpCode::SkipIfKeyNotPressed,
        c == 0xF && y == 0x0 && n == 0x7 ==> opcode_spec(word_of(c, x, y, n))
            == OpCode::ReadDelayRegister,
        c == 0xF && y == 0x0 && n == 0xA ==> opcode_spec(word_of(c, x, y, n))
            == OpCode::WaitForKeyPress,
        c == 0xF && y == 0x1 && n == 0x5 ==> opcode_spec(word_of(c, x, y, n))
            == OpCode::SetDelayRegister,
        c == 0xF && y == 0x1 && n == 0x8 ==> opcode_spec(word_of(c, x, y, n))
            == OpCode::SetSoundRegister,
        c == 0xF && y == 0x1 && n == 0xE ==> opcode_spec(word_of(c, x, y, n))
            == OpCode::AddToIndexRegister,
        c == 0xF && y == 0x2 && n == 0x9 ==> opcode_spec(word_of(c, x, y, n))
            == OpCode::SetIndexRegisterToFont,
        c == 0xF && y == 0x3 && n == 0x3 ==> opcode_spec(word_of(c, x, y, n))
            == OpCode::DecodeBCD,
        c == 0xF && y == 0x5 && n == 0x5 ==> opcode_spec(word_of(c, x, y, n))
            == OpCode::SaveRegisters,
        c == 0xF && y == 0x6 && n == 0x5 ==> opcode_spec(word_of(c, x, y, n))
            == OpCode::LoadRegisters,
{
    assert((word_of(c, x, y, n) >> 12) == c && ((word_of(c, x, y, n) >> 8) & 0xF) == x && ((word_of(
        c,
        x,
        y,
        n,
    ) >> 4) & 0xF) == y && (word_of(c, x, y, n) & 0xF) == n && (word_of(c, x, y, n) & 0xFF) == y
        * 16 + n && (word_of(c, x, y, n) & 0xFFF) == x * 256 + y * 16 + n && (c >= 1 ==> word_of(
        c,
        x,
        y,
        n,
    ) != 0x00E0 && word_of(c, x, y, n) != 0x00EE) && (c == 0 && x == 0 && y == 0xE && n == 0
        ==> word_of(c, x, y, n) == 0x00E0) && (c == 0 && x == 0 && y == 0xE && n == 0xE ==> word_of(
        c,
        x,
        y,
        n,
    ) == 0x00EE)) by (bit_vector)
        requires
            c < 16 && x < 16 && y < 16 && n < 16,
    ;
}

/// The shift operations act on the operand the compatibility mode selects:
/// the left-hand (X-register) value when the mode is off, the right-hand
/// (Y-register) value when it is on.  The flag is that operand's shifted-out
/// bit: bit 7 for shift-left, bit 0 for shift-right.
pub proof fn lemma_shift_mode_choice(lhs: u8, rhs: u8)
    ensures
        alu_result(ALUOperation::ShiftLeft, lhs, rhs, false) == ((lhs * 2) % 256) as u8,
        alu_result(ALUOperation::ShiftLeft, lhs, rhs, true) == ((rhs * 2) % 256) as u8,
        alu_flag(ALUOperation::ShiftLeft, lhs, rhs, false) == Some(lhs >> 7),
        alu_flag(ALUOperation::ShiftLeft, lhs, rhs, true) == Some(rhs >> 7),
        alu_result(ALUOperation::ShiftRight, lhs, rhs, false) == lhs / 2,
        alu_result(ALUOperation::ShiftRight, lhs, rhs, true) == rhs / 2,
        alu_flag(ALUOperation::ShiftRight, lhs, rhs, false) == Some(lhs & 1),
        alu_flag(ALUOperation::ShiftRight, lhs, rhs, true) == Some(rhs & 1),
{
    assert(lhs >> 7 == (if lhs >= 0x80 {
        1u8
    } else {
        0u8
    }) && lhs & 1 == lhs % 2) by (bit_vector);
    assert(rhs >> 7 == (if rhs >= 0x80 {
        1u8
    } else {
        0u8
    }) && rhs & 1 == rhs % 2) by (bit_vector);
}

impl ALUOperation {
    /// Computes the 8-bit result and the optional flag of a two-operand
    /// arithmetic/logic operation.  All register arithmetic wraps modulo 256;
    /// the shifts act on the operand selected by the compatibility mode.
    pub fn perform(&self, lhs: u8, rhs: u8, compatibility_mode: bool) -> (r: (u8, Option<u8>))
        ensures
            r.0 == alu_result(*self, lhs, rhs, compatibility_mode),
            r.1 == alu_flag(*self, lhs, rhs, compatibility_mode),
    {
        match self {
            ALUOperation::SetValue => (rhs, None),
            ALUOperation::Add => {
                let sum: u32 = lhs as u32 + rhs as u32;
                proof {
                    assert((sum & 0xFF) as u8 == (sum % 256) as u8) by (bit_vector);
                }
                ((sum & 0xFF) as u8, if sum > 0xFF { Some(1) } else { Some(0) })
            },
            ALUOperation::Sub => {
                (lhs.wrapping_sub(rhs), if lhs >= rhs { Some(1) } else { Some(0) })
            },
            ALUOperation::SubAndNegate => {
                (rhs.wrapping_sub(lhs), if rhs >= lhs { Some(1) } else { Some(0) })
            },
            ALUOperation::BitwiseOr => (lhs | rhs, None),
            ALUOperation::BitwiseAnd => (lhs & rhs, None),
            ALUOperation::BitwiseXor => (lhs ^ rhs, None),
            ALUOperation::ShiftLeft => {
                let operand = if compatibility_mode { rhs } else { lhs };
                proof {
                    assert(operand << 1 == ((operand * 2) % 256) as u8) by (bit_vector);
                    assert((operand & 0x80 != 0) == (operand >= 0x80)) by (bit_vector);
                }
                (operand << 1, if operand & 0x80 != 0 { Some(1) } else { Some(0) })
            },
            ALUOperation::ShiftRight => {
                let operand = if compatibility_mode { rhs } else { lhs };
                proof {
                    assert(operand >> 1 == operand / 2) by (bit_vector);
                    assert((operand & 0x01) == operand % 2) by (bit_vector);
                }
                (operand >> 1, if operand & 0x01 != 0 { Some(1) } else { Some(0) })
            },
        }
    }
}

} // verus!

use rsvm::instruction::{Instruction, Opcode};
use rsvm::parser::{opcode, opcode_load};
use rsvm::token::Token;

#[test]
fn test_create_hlt() {
    let opcode = Opcode::HLT;
    assert_eq!(opcode, Opcode::HLT);
}

#[test]
fn test_create_instruction() {
    let instruction = Instruction::new(Opcode::HLT);
    assert_eq!(instruction.opcode, Opcode::HLT);
}

#[test]
fn test_corresponding_enum_with_number() {
    let a: u8 = 200;
    let b = a.try_into().unwrap_or(Opcode::IGL);
    assert_eq!(b, Opcode::IGL);
}

#[test]
fn test_str_to_opcode() {
    let opcode = Opcode::from_mnemonic(b"load");
    assert_eq!(opcode, Opcode::LOAD);
    let opcode = Opcode::from_mnemonic(b"illegal");
    assert_eq!(opcode, Opcode::IGL);
}

#[test]
fn test_opcode_parse() {
    let result = opcode(b"load", 0);
    assert!(result.is_some());

    let (rest, token) = result.unwrap();
    assert_eq!(rest, 4);
    assert_eq!(token, Token::Op { code: Opcode::LOAD });

    let result = opcode(b"aload", 0);
    assert_eq!(result.unwrap().1, Token::Op { code: Opcode::IGL });
}

#[test]
fn opcode_parsers_test_opcode_load() {
    let result = opcode_load(b"load", 0);
    assert_eq!(result.is_some(), true);

    let (rest, token) = result.unwrap();
    assert_eq!(rest, 4);
    assert_eq!(token, Token::Op { code: Opcode::LOAD });

    let result = opcode_load(b"aload", 0);
    assert_eq!(result.is_some(), false);
}

#[test]
fn test_opcode_byte_roundtrip() {
    // Every opcode's byte decodes back to the opcode, and the mnemonic of
    // every opcode reads back as the opcode.
    let all = [
        Opcode::LOAD,
        Opcode::ADD,
        Opcode::SUB,
        Opcode::MUL,
        Opcode::DIV,
        Opcode::INC,
        Opcode::DEC,
        Opcode::EQ,
        Opcode::NEQ,
        Opcode::GT,
        Opcode::LT,
        Opcode::GTE,
        Opcode::LTE,
        Opcode::JEQ,
        Opcode::JNEQ,
        Opcode::JMPB,
        Opcode::JMP,
        Opcode::JMPF,
        Opcode::NOP,
        Opcode::ALOC,
        Opcode::PRTS,
        Opcode::HLT,
    ];
    for op in all {
        assert_eq!(Opcode::from_byte(op.to_byte()), op);
    }
    assert_eq!(Opcode::from_byte(Opcode::IGL.to_byte()), Opcode::IGL);
    assert_eq!(Opcode::from_byte(0), Opcode::LOAD);
    assert_eq!(u8::from(Opcode::HLT), 254);
    assert_eq!(Opcode::from(13u8), Opcode::DIV);
}

#[test]
fn test_mnemonic_case_insensitive() {
    assert_eq!(Opcode::from_mnemonic(b"LoAd"), Opcode::LOAD);
    assert_eq!(Opcode::from_mnemonic(b"JMPF"), Opcode::JMPF);
    assert_eq!(Opcode::from_mnemonic(b"prts"), Opcode::PRTS);
    assert_eq!(Opcode::from_mnemonic(b""), Opcode::IGL);
}

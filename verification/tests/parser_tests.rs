use rsvm::instruction::Opcode;
use rsvm::instruction_parser::{
    directive_combined, instruction_combined, program, AssemblerInstruction,
};
use rsvm::parser::{integer_operand, irstring, label_declaration, label_usage, register};
use rsvm::symbol::SymbolTable;
use rsvm::token::Token;

#[test]
fn test_parse_register() {
    let result = register(b"$0", 0);
    assert_eq!(result.is_some(), true);
    match result.unwrap().1 {
        Token::Register { reg_num } => assert_eq!(reg_num, 0),
        _ => assert!(false),
    }

    let result = register(b"0", 0);
    assert_eq!(result.is_some(), false);
    let result = register(b"$a", 0);
    assert_eq!(result.is_some(), false);
}

#[test]
fn test_parse_integer_operand() {
    let result = integer_operand(b"#10", 0);
    assert!(result.is_some());

    let (rest, value) = result.unwrap();
    assert_eq!(rest, 3);
    assert_eq!(value, Token::IntegerOperand { value: 10 });

    let result = integer_operand(b"10", 0);
    assert!(result.is_none());
}

#[test]
fn operand_parsers_test_parse_integer_operand() {
    let result = integer_operand(b"#10", 0);
    assert!(result.is_some());

    let (rest, value) = result.unwrap();
    assert_eq!(rest, 3);
    assert_eq!(value, Token::IntegerOperand { value: 10 });

    let result = integer_operand(b"10", 0);
    assert!(result.is_none());
}

#[test]
fn test_parse_string_operand() {
    let result = irstring(b"'The Content'", 0);
    assert!(result.is_some());
    assert_eq!(
        result.unwrap().1,
        Token::IrString {
            name: b"The Content".to_vec()
        }
    )
}

#[test]
fn test_parse_label_declaration() {
    let ret = label_declaration(b"test:", 0);
    assert!(ret.is_some());
    let (_, token) = ret.unwrap();
    assert_eq!(
        token,
        Token::LabelDeclaration {
            name: b"test".to_vec()
        }
    );
    let ret = label_declaration(b"test", 0);
    assert!(ret.is_none());
}

#[test]
fn test_parse_label_usage() {
    let result = label_usage(b"@test", 0);
    assert_eq!(result.is_some(), true);
    let (_, token) = result.unwrap();
    assert_eq!(
        token,
        Token::LabelUsage {
            name: b"test".to_vec()
        }
    );
    let result = label_usage(b"test", 0);
    assert_eq!(result.is_some(), false);
}

#[test]
fn test_string_directive() {
    let ret = directive_combined(b"test: .asciiz 'Hello'", 0);
    assert!(ret.is_some());
    let (_, directive) = ret.unwrap();
    assert_eq!(
        directive,
        AssemblerInstruction {
            opcode: None,
            label: Some(Token::LabelDeclaration {
                name: b"test".to_vec()
            }),
            directive: Some(Token::Directive {
                name: b"asciiz".to_vec()
            }),
            operand1: Some(Token::IrString {
                name: b"Hello".to_vec()
            }),
            operand2: None,
            operand3: None
        }
    )
}

#[test]
fn test_parse_instruction_from_one() {
    let result = instruction_combined(b"load $0 #100\n", 0);
    assert!(result.is_some());
    let (rest, instruction) = result.unwrap();
    // Everything but the trailing newline is consumed.
    assert_eq!(rest, 12);
    assert_eq!(
        instruction,
        AssemblerInstruction {
            opcode: Some(Token::Op { code: Opcode::LOAD }),
            operand1: Some(Token::Register { reg_num: 0 }),
            operand2: Some(Token::IntegerOperand { value: 100 }),
            operand3: None,
            label: None,
            directive: None,
        }
    );
}

#[test]
fn test_parse_instruction_from_two() {
    let result = instruction_combined(b"hlt\n", 0);
    assert!(result.is_some());
    let (rest, instruction) = result.unwrap();
    assert_eq!(rest, 3);
    assert_eq!(
        instruction,
        AssemblerInstruction {
            opcode: Some(Token::Op { code: Opcode::HLT }),
            operand1: None,
            operand2: None,
            operand3: None,
            label: None,
            directive: None
        }
    );
}

#[test]
fn test_parse_program() {
    let result = program(b"load $0 #100\n");
    assert!(result.is_ok());
    let p = result.unwrap();
    assert!(1 == p.instructions.len());
}

#[test]
fn test_program_to_bytes() {
    let result = program(b"load $0 #100\n");
    assert!(result.is_ok());
    let p = result.unwrap();
    let symbols = SymbolTable::new();
    let bytecodes = p.to_bytes(&symbols);
    assert_eq!(bytecodes.len(), 4);
    assert_eq!(bytecodes, vec![0, 0, 0, 100]);
}

#[test]
fn test_complete_program() {
    let result = program(b".data\nhello .asciiz 'Hello!'\n.code\nhlt");
    assert!(result.is_ok());
}

#[test]
fn test_program_rejects_trailing_garbage() {
    // A malformed instruction fails the whole parse, with the offending
    // remainder carried in the error.
    let result = program(b"load $0 #100\n$$$");
    assert!(result.is_err());
    match result.unwrap_err() {
        rsvm::errors::AssemblerError::ParseError { remainder } => {
            assert_eq!(remainder, b"$$$".to_vec());
        }
        _ => assert!(false),
    }
}

#[test]
fn test_register_bound() {
    // Registers run from $0 to $31; anything larger is not a register.
    assert!(register(b"$31", 0).is_some());
    assert!(register(b"$32", 0).is_none());
}

#[test]
fn test_label_operand_encoding() {
    // A resolved label use emits the offset's low bytes, high byte first;
    // an unresolved one degrades to padding.
    let result = program(b"jeq @dest\n");
    assert!(result.is_ok());
    let p = result.unwrap();
    let mut symbols = SymbolTable::new();
    let unresolved = p.to_bytes(&symbols);
    assert_eq!(unresolved, vec![26, 0, 0, 0]);
    symbols.add_symbol(rsvm::symbol::Symbol::new_with_offset(
        b"dest".to_vec(),
        rsvm::symbol::SymbolType::Label,
        0x0102,
    ));
    let resolved = p.to_bytes(&symbols);
    assert_eq!(resolved, vec![26, 1, 2, 0]);
}

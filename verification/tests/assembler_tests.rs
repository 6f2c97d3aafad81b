use rsvm::assembler::Assembler;
use rsvm::errors::AssemblerError;
use rsvm::instruction_parser::program;
use rsvm::symbol::{Symbol, SymbolTable, SymbolType};
use rsvm::vm::VM;

#[test]
/// Tests assembly a small but correct program
fn test_assemble_program() {
    let mut assembler = Assembler::new();
    let test_string = b"
        .data
        .code
        load $0 #100
        load $1 #1
        load $2 #0
        test: inc $0
        neq $0 $2
        jeq @test
        hlt
        ";
    let program = assembler.assemble(test_string).unwrap();
    let mut vm = VM::new();
    assert_eq!(program.len(), 96);
    vm.add_bytes(program);
    assert_eq!(vm.program.len(), 96);
}

#[test]
/// Simple test of data that goes into the read only section
fn test_code_start_offset_written() {
    let mut assembler = Assembler::new();
    let test_string = b"
        .data
        test1: .asciiz 'Hello'
        .code
        load $0 #100
        load $1 #1
        load $2 #0
        test: inc $0
        neq $0 $2
        jmpe @test
        hlt
        ";
    let program = assembler.assemble(test_string);
    assert_eq!(program.is_ok(), true);
    let unwrapped = program.unwrap();
    assert_eq!(unwrapped[64], 6);
}

#[test]
/// Tests that we can add things to the symbol table
fn mod_test_symbol_table() {
    let mut sym = SymbolTable::new();
    let new_symbol = Symbol::new_with_offset(b"test".to_vec(), SymbolType::Label, 12);
    sym.add_symbol(new_symbol);
    assert_eq!(sym.symbols.len(), 1);
    let v = sym.symbol_value(b"test");
    assert_eq!(true, v.is_some());
    let v = v.unwrap();
    assert_eq!(v, 12);
    let v = sym.symbol_value(b"does_not_exist");
    assert_eq!(v.is_some(), false);
}

#[test]
/// Simple test of data that goes into the read only section
fn test_ro_data_asciiz() {
    let mut assembler = Assembler::new();
    let test_string = b"
        .data
        test: .asciiz 'This is a test'
        .code
        ";
    let program = assembler.assemble(test_string);
    assert_eq!(program.is_ok(), true);
}

#[test]
/// This tests that a section name that isn't `code` or `data` throws an error
fn test_bad_ro_data() {
    let mut assembler = Assembler::new();
    let test_string = b"
        .code
        test: .asciiz 'This is a test'
        .wrong
        ";
    let program = assembler.assemble(test_string);
    assert_eq!(program.is_ok(), false);
}

#[test]
/// Tests that code which does not declare a segment first does not work
fn test_first_phase_no_segment() {
    let mut assembler = Assembler::new();
    let test_string = b"hello: .asciiz 'Fail'";
    let result = program(test_string);
    assert_eq!(result.is_ok(), true);
    let p = result.unwrap();
    assembler.process_first_phase(&p);
    assert_eq!(assembler.errors.len(), 1);
}

#[test]
/// Tests that code inside a proper segment works
fn test_first_phase_inside_segment() {
    let mut assembler = Assembler::new();
    let test_string = b"
        .data
        test: .asciiz 'Hello'
        ";
    let result = program(test_string);
    assert_eq!(result.is_ok(), true);
    let p = result.unwrap();
    assembler.process_first_phase(&p);
    assert_eq!(assembler.errors.len(), 0);
}

#[test]
fn test_image_starts_with_magic() {
    // Every successful assembly yields an image opening with the magic
    // prefix.
    let mut assembler = Assembler::new();
    let image = assembler.assemble(b".data\n.code\nhlt\n").unwrap();
    assert_eq!(&image[0..4], &[45, 50, 49, 45]);
}

#[test]
fn test_missing_code_section_fails() {
    let mut assembler = Assembler::new();
    let result = assembler.assemble(b".data\nload $0 #1\n");
    assert!(result.is_err());
    let errors = result.unwrap_err();
    assert_eq!(errors.len(), 1);
    assert!(matches!(errors[0], AssemblerError::InsufficientSections));
}

#[test]
fn test_missing_data_section_fails() {
    let mut assembler = Assembler::new();
    let result = assembler.assemble(b".code\nhlt\n");
    assert!(result.is_err());
    let errors = result.unwrap_err();
    assert_eq!(errors.len(), 1);
    assert!(matches!(errors[0], AssemblerError::InsufficientSections));
}

#[test]
fn test_label_before_section_exact_error() {
    // A label declared before any section yields exactly one
    // NoSegmentDeclarationFound, carrying the instruction's index.
    let mut assembler = Assembler::new();
    let p = program(b"nop\nhello: .asciiz 'Fail'").unwrap();
    assembler.process_first_phase(&p);
    assert_eq!(assembler.errors.len(), 1);
    assert!(matches!(
        assembler.errors[0],
        AssemblerError::NoSegmentDeclarationFound { instruction: 1 }
    ));
}

#[test]
fn test_asciiz_offset_and_bytes() {
    // For `.asciiz` content "Hello" under label `test`, the symbol resolves
    // to the cursor before the five content bytes, and six bytes (content
    // plus terminator) enter the read-only segment.
    let mut assembler = Assembler::new();
    let result = assembler.assemble(b".data\nfiller: .asciiz 'xy'\ntest: .asciiz 'Hello'\n.code\nhlt\n");
    assert!(result.is_ok());
    assert_eq!(assembler.symbols.symbol_value(b"filler"), Some(0));
    assert_eq!(assembler.symbols.symbol_value(b"test"), Some(3));
    assert_eq!(assembler.ro.len(), 9);
    assert_eq!(assembler.ro, b"xy\0Hello\0".to_vec());
}

#[test]
fn test_duplicate_label_rejected() {
    let mut assembler = Assembler::new();
    let result = assembler.assemble(b".data\n.code\ntest: inc $0\ntest: inc $1\nhlt\n");
    assert!(result.is_err());
    let errors = result.unwrap_err();
    assert!(errors
        .iter()
        .any(|e| matches!(e, AssemblerError::SymbolAlreadyDeclared)));
}

#[test]
fn test_unknown_directive_rejected() {
    let mut assembler = Assembler::new();
    let result = assembler.assemble(b".data\ntest: .integer #300\n.code\n");
    assert!(result.is_err());
    let errors = result.unwrap_err();
    assert!(errors.iter().any(|e| match e {
        AssemblerError::UnknownDirectiveFound { directive } => directive == &b"integer".to_vec(),
        _ => false,
    }));
}

#[test]
fn test_string_without_label_rejected() {
    let mut assembler = Assembler::new();
    let result = assembler.assemble(b".data\n.asciiz 'Hi'\n.code\n");
    assert!(result.is_err());
    let errors = result.unwrap_err();
    assert!(errors.iter().any(|e| matches!(
        e,
        AssemblerError::StringConstantDeclaredWithoutLabel { .. }
    )));
}

#[test]
fn test_parse_error_reported() {
    let mut assembler = Assembler::new();
    let result = assembler.assemble(b"load $$$\n");
    assert!(result.is_err());
    let errors = result.unwrap_err();
    assert_eq!(errors.len(), 1);
    assert!(matches!(errors[0], AssemblerError::ParseError { .. }));
}

#[test]
fn test_write_pie_header_layout() {
    let assembler = Assembler::new();
    let header = assembler.write_pie_header();
    assert_eq!(header.len(), 68);
    assert_eq!(&header[0..4], &[45, 50, 49, 45]);
    assert!(header[4..68].iter().all(|b| *b == 0));
}

#[test]
fn test_errors_accumulate_with_section_check() {
    // Error collection is not fail-fast: a source that both declares a
    // label before any section and lacks a code section returns the scan's
    // error and InsufficientSections together.
    let mut assembler = Assembler::new();
    let result = assembler.assemble(b"hello: inc $0\n.data\n");
    assert!(result.is_err());
    let errors = result.unwrap_err();
    assert_eq!(errors.len(), 2);
    assert!(matches!(
        errors[0],
        AssemblerError::NoSegmentDeclarationFound { instruction: 0 }
    ));
    assert!(matches!(errors[1], AssemblerError::InsufficientSections));
}

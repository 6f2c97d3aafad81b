use rsvm::assembler::Assembler;
use rsvm::instruction::Opcode;
use rsvm::vm::{StepStatus, VMEventType, VmFault, VM};

#[test]
fn test_create_vm() {
    let vm = VM::new();
    vm.registers
        .iter()
        .for_each(|register| assert_eq!(register, &0))
}

#[test]
fn test_opcode_hlt() {
    let mut test_vm = VM::new();
    let test_bytes = vec![Opcode::HLT.into(), 0, 0, 0];
    test_vm.program = VM::prepend_header(test_bytes);
    test_vm.run();
    assert_eq!(test_vm.pc, VM::get_header_offset() + 1);
}

#[test]
fn test_opcode_igl() {
    let mut test_vm = VM::new_with_header();
    let mut test_bytes = vec![Opcode::IGL.into(), 0, 0, 0];
    test_vm.program.append(&mut test_bytes);
    test_vm.run();
    assert_eq!(test_vm.pc, VM::get_header_offset() + 1);
}

#[test]
fn vm_test_opcode_load() {
    let mut test_vm = VM::new_with_header();
    test_vm
        .program
        .append(&mut vec![Opcode::LOAD.into(), 0, 1, 244]);
    test_vm.run();
    assert_eq!(test_vm.registers[0], 500);
}

#[test]
fn test_opcode_jmp() {
    let mut test_vm = VM::new();
    test_vm.program = vec![80, 0, 0, 0];
    test_vm.registers[0] = 1;
    test_vm.run_once();
    assert_eq!(test_vm.pc, 1);
}

#[test]
fn test_opcode_eq() {
    let mut test_vm = VM::new();
    test_vm.registers[0] = 10;
    test_vm.registers[1] = 10;
    test_vm.program = vec![Opcode::EQ.into(), 0, 1, 255];
    test_vm.run_once();
    assert_eq!(test_vm.equal_flag, true);

    test_vm.pc = 0;
    test_vm.registers[1] = 20;
    test_vm.run_once();
    assert_eq!(test_vm.equal_flag, false);
}

#[test]
fn test_opcode_jeq() {
    let mut test_vm = VM::new();
    test_vm.registers[0] = 7;
    test_vm.equal_flag = true;
    test_vm.program = vec![Opcode::JEQ.into(), 0, 0, 0, 17, 0, 0, 0, 17, 0, 0, 0];
    test_vm.run_once();
    assert_eq!(test_vm.pc, 7);
}

#[test]
fn test_opcode_jmp_relatively() {
    {
        let mut vm = VM::new();
        vm.registers[0] = 2;

        vm.program = vec![Opcode::JMPF.into(), 0, 0, 0, 6, 0, 0, 0];
        vm.run_once();
        assert_eq!(vm.pc, 4);
    }
    {
        let mut vm = VM::new();
        vm.registers[0] = 5;
        vm.pc = 3;

        vm.program = vec![0, 1, 2, Opcode::JMPB.into(), 0, 5, 6, 7];
        vm.run_once();
        assert_eq!(vm.pc, 0);
    }
}

#[test]
fn test_opcode_aloc() {
    let mut vm = VM::new();
    vm.registers[0] = 1024;
    vm.program = vec![Opcode::ALOC.into(), 0, 0, 0];
    vm.run_once();
    assert_eq!(vm.heap.len(), 1024);
}

#[test]
fn test_opcode_inc_and_dec() {
    let mut vm = VM::new();
    vm.registers[0] = 1024;
    vm.program = vec![Opcode::INC.into(), 0, 0, 0, Opcode::DEC.into(), 0, 0, 0];
    vm.run_once();
    assert_eq!(vm.registers[0], 1025);
    vm.run_once();
    assert_eq!(vm.registers[0], 1024);
}

#[test]
fn test_opcode_mul() {
    let mut vm = VM::new_with_header();
    vm.program.append(&mut vec![Opcode::MUL.into(), 0, 1, 2]);
    vm.registers[0] = 25;
    vm.registers[1] = 2;
    vm.run();
    assert_eq!(vm.registers[2], 50)
}

#[test]
fn test_opcode_prts() {
    let mut vm = VM::new();
    vm.ro_data
        .append(&mut vec![72, 101, 108, 108, 101, b'\n', 0]);
    vm.program = vec![Opcode::PRTS.into(), 0, 0, 0];
    vm.run_once();
    assert_eq!(vm.output, vec![72, 101, 108, 108, 101, b'\n']);
}

#[test]
fn test_add_program_reaches_three_hundred() {
    // LOAD $0 #100; LOAD $1 #200; ADD $0 $1 $2; HLT leaves register 2 at
    // 300.
    let mut assembler = Assembler::new();
    let image = assembler
        .assemble(b".data\n.code\nload $0 #100\nload $1 #200\nadd $0 $1 $2\nhlt\n")
        .unwrap();
    let mut vm = VM::new();
    vm.add_bytes(image);
    let events = vm.run();
    assert_eq!(vm.registers[2], 300);
    assert_eq!(events.len(), 2);
    assert_eq!(events[0].event, VMEventType::Start);
    assert_eq!(events[1].event, VMEventType::GracefulStop { code: 0 });
}

#[test]
fn test_hlt_advances_one_byte() {
    // A program of one HLT advances the counter exactly one opcode byte
    // past the code start and stops normally.
    let mut assembler = Assembler::new();
    let image = assembler.assemble(b".data\n.code\nhlt\n").unwrap();
    let mut vm = VM::new();
    vm.add_bytes(image);
    let events = vm.run();
    assert_eq!(vm.pc, VM::get_header_offset() + 1);
    assert_eq!(events.last().unwrap().event, VMEventType::GracefulStop { code: 0 });
}

#[test]
fn test_division_by_zero_faults() {
    // A zero divisor is a reported fault, not a process crash.
    let mut vm = VM::new();
    vm.registers[0] = 10;
    vm.registers[1] = 0;
    vm.program = vec![Opcode::DIV.into(), 0, 1, 2];
    let status = vm.execute_instruction();
    assert_eq!(
        status,
        StepStatus::Crashed {
            fault: VmFault::DivisionByZero
        }
    );
    assert_eq!(vm.registers[2], 0);
}

#[test]
fn test_division_by_zero_crash_event() {
    let mut vm = VM::new_with_header();
    vm.program.append(&mut vec![Opcode::DIV.into(), 0, 1, 2]);
    vm.registers[0] = 10;
    let events = vm.run();
    assert_eq!(events.len(), 2);
    assert_eq!(events[0].event, VMEventType::Start);
    assert_eq!(events[1].event, VMEventType::Crash);
}

#[test]
fn test_division_semantics() {
    let mut vm = VM::new();
    vm.registers[0] = -7;
    vm.registers[1] = 2;
    vm.program = vec![Opcode::DIV.into(), 0, 1, 2];
    vm.run_once();
    // Division truncates toward zero; the remainder keeps the dividend's
    // sign, read as a two's-complement 32-bit value.
    assert_eq!(vm.registers[2], -3);
    assert_eq!(vm.remainder, (-1i32) as u32);
}

#[test]
fn test_bad_header_crashes() {
    let mut vm = VM::new();
    vm.program = vec![1, 2, 3, 4];
    let events = vm.run();
    assert_eq!(events.len(), 2);
    assert_eq!(events[0].event, VMEventType::Start);
    assert_eq!(events[1].event, VMEventType::Crash);
}

#[test]
fn test_out_of_range_is_normal_stop() {
    let mut vm = VM::new_with_header();
    vm.program.append(&mut vec![Opcode::NOP.into(), 0, 0, 0]);
    let events = vm.run();
    assert_eq!(events.last().unwrap().event, VMEventType::GracefulStop { code: 1 });
}

#[test]
fn test_two_vms_no_cross_contamination() {
    // Two machines with different programs, stepped in an interleaved
    // order as independently scheduled machines would run, each reach
    // their own final register state.
    let mut asm1 = Assembler::new();
    let image1 = asm1
        .assemble(b".data\n.code\nload $0 #100\nload $1 #200\nadd $0 $1 $2\nhlt\n")
        .unwrap();
    let mut asm2 = Assembler::new();
    let image2 = asm2
        .assemble(b".data\n.code\nload $0 #9\nload $1 #3\nmul $0 $1 $2\nhlt\n")
        .unwrap();
    let mut vm1 = VM::new();
    let mut vm2 = VM::new();
    vm1.add_bytes(image1);
    vm2.add_bytes(image2);
    vm1.pc = VM::get_header_offset();
    vm2.pc = VM::get_header_offset();
    for _ in 0..4 {
        vm1.run_once();
        vm2.run_once();
    }
    assert_eq!(vm1.registers[2], 300);
    assert_eq!(vm2.registers[2], 27);
    assert_eq!(vm1.registers[0], 100);
    assert_eq!(vm2.registers[0], 9);
}

#[test]
fn test_prts_runs_through_assembled_image() {
    // The read-only segment assembled from an .asciiz string is what PRTS
    // prints: the image carries the data and the header's offset field
    // places the code after it.
    let mut assembler = Assembler::new();
    let image = assembler
        .assemble(b".data\nmsg: .asciiz 'Hi'\n.code\nprts @msg\n")
        .unwrap();
    let mut vm = VM::new();
    vm.add_bytes(image);
    let events = vm.run();
    assert_eq!(vm.output, b"Hi".to_vec());
    assert_eq!(events.last().unwrap().event, VMEventType::GracefulStop { code: 1 });
}

#[test]
fn test_illegal_register_faults() {
    // An operand byte naming no register is a reported fault.
    let mut vm = VM::new();
    vm.program = vec![Opcode::ADD.into(), 0, 1, 77];
    let status = vm.execute_instruction();
    assert_eq!(
        status,
        StepStatus::Crashed {
            fault: VmFault::IllegalRegister
        }
    );
}

#[test]
fn test_negative_allocation_faults() {
    // A negative allocation size is a reported fault; the heap stays as it
    // was.
    let mut vm = VM::new();
    vm.registers[0] = -5;
    vm.program = vec![Opcode::ALOC.into(), 0, 0, 0];
    let status = vm.execute_instruction();
    assert_eq!(
        status,
        StepStatus::Crashed {
            fault: VmFault::IllegalAllocation
        }
    );
    assert_eq!(vm.heap.len(), 0);
}

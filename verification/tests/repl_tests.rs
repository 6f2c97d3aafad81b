use rsvm::repl::{ReplAction, ReplOut, REPL};
use rsvm::scheduler::Scheduler;
use rsvm::vm::VM;

#[test]
fn test_scheduler_new() {
    let s = Scheduler::new();
    assert_eq!(s.next_pid, 0);
    assert_eq!(s.max_pid, 50000);
}

#[test]
fn test_quit_command() {
    let mut repl = REPL::new();
    assert_eq!(repl.run_single(b"!quit"), ReplAction::Quit);
}

#[test]
fn test_invalid_command() {
    let mut repl = REPL::new();
    assert_eq!(repl.run_single(b"!bogus"), ReplAction::Next);
    let out = repl.take_output();
    assert_eq!(out.len(), 1);
    assert!(matches!(out[0], ReplOut::Invalid));
}

#[test]
fn test_registers_command() {
    let mut repl = REPL::new();
    assert_eq!(repl.run_single(b"!registers"), ReplAction::Next);
    let out = repl.take_output();
    assert_eq!(out.len(), 2);
    match &out[0] {
        ReplOut::Registers(regs) => {
            assert_eq!(regs.len(), 32);
            assert!(regs.iter().all(|r| *r == 0));
        }
        _ => assert!(false),
    }
    assert!(matches!(out[1], ReplOut::Prompt));
}

#[test]
fn test_history_command() {
    let mut repl = REPL::new();
    repl.run_single(b"!registers");
    repl.take_output();
    repl.run_single(b"!history");
    let out = repl.take_output();
    // Both lines entered so far, then the prompt.
    assert_eq!(out.len(), 3);
    assert!(matches!(&out[0], ReplOut::HistoryEntry(l) if l == &b"!registers".to_vec()));
    assert!(matches!(&out[1], ReplOut::HistoryEntry(l) if l == &b"!history".to_vec()));
    assert!(matches!(out[2], ReplOut::Prompt));
}

#[test]
fn test_assembly_line_runs_once() {
    // A raw line is encoded and appended, and one instruction executes.
    let mut repl = REPL::new();
    assert_eq!(repl.run_single(b"load $0 #500"), ReplAction::Next);
    assert_eq!(repl.vm.program, vec![0, 0, 1, 244]);
    assert_eq!(repl.vm.registers[0], 500);
    assert_eq!(repl.vm.pc, 4);
}

#[test]
fn test_unparseable_line_reports() {
    let mut repl = REPL::new();
    assert_eq!(repl.run_single(b"load $$$"), ReplAction::Next);
    let out = repl.take_output();
    assert_eq!(out.len(), 1);
    assert!(matches!(out[0], ReplOut::ParseFailed(_)));
    assert_eq!(repl.vm.program.len(), 0);
}

#[test]
fn test_directive_line_not_runnable() {
    let mut repl = REPL::new();
    assert_eq!(repl.run_single(b".data"), ReplAction::Next);
    let out = repl.take_output();
    assert_eq!(out.len(), 1);
    assert!(matches!(out[0], ReplOut::NotRunnable));
}

#[test]
fn test_clear_program_command() {
    let mut repl = REPL::new();
    repl.run_single(b"load $0 #1");
    assert_eq!(repl.vm.program.len(), 4);
    repl.run_single(b"!clear_program");
    assert_eq!(repl.vm.program.len(), 0);
}

#[test]
fn test_clear_registers_command() {
    let mut repl = REPL::new();
    repl.run_single(b"load $3 #7");
    assert_eq!(repl.vm.registers[3], 7);
    repl.run_single(b"!clear_registers");
    assert_eq!(repl.vm.registers.len(), 32);
    assert!(repl.vm.registers.iter().all(|r| *r == 0));
}

#[test]
fn test_load_file_runs_to_completion() {
    let mut repl = REPL::new();
    assert_eq!(repl.run_single(b"!load_file"), ReplAction::LoadFile);
    repl.load_file(b".data\n.code\nload $0 #100\nload $1 #200\nadd $0 $1 $2\nhlt\n");
    let out = repl.take_output();
    assert!(out.iter().any(|o| matches!(o, ReplOut::ProgramLoaded)));
    assert_eq!(repl.vm.registers[2], 300);
}

#[test]
fn test_load_file_reports_errors() {
    let mut repl = REPL::new();
    repl.load_file(b".data\nload $0 #1\n");
    let out = repl.take_output();
    assert!(out.iter().any(|o| matches!(o, ReplOut::AssembleFailed(_))));
    assert_eq!(repl.vm.program.len(), 0);
}

#[test]
fn test_spawn_hands_off_copy() {
    let mut repl = REPL::new();
    assert_eq!(repl.run_single(b"!spawn"), ReplAction::SpawnFile);
    let spawned = repl.spawn(b".data\n.code\nload $0 #9\nload $1 #3\nmul $0 $1 $2\nhlt\n");
    assert!(spawned.is_some());
    let mut vm: VM = spawned.unwrap();
    assert_eq!(vm.program, repl.vm.program);
    // The copy runs on its own; the REPL's machine stays put.
    vm.run();
    assert_eq!(vm.registers[2], 27);
    assert_eq!(repl.vm.registers[2], 0);
}

#[test]
fn test_send_message_and_prompt() {
    let mut repl = REPL::new();
    repl.send_message(b"hello".to_vec());
    repl.send_prompt();
    let out = repl.take_output();
    assert_eq!(out.len(), 2);
    assert!(matches!(&out[0], ReplOut::Message(m) if m == &b"hello".to_vec()));
    assert!(matches!(out[1], ReplOut::Prompt));
    assert_eq!(repl.take_output().len(), 0);
}

#[test]
fn test_symbols_command() {
    let mut repl = REPL::new();
    repl.load_file(b".data\nmsg: .asciiz 'Hi'\n.code\nhlt\n");
    repl.take_output();
    repl.run_single(b"!symbols");
    let out = repl.take_output();
    assert_eq!(out.len(), 2);
    assert!(matches!(&out[0], ReplOut::Symbols(s) if s.len() == 1));
    assert!(matches!(out[1], ReplOut::Prompt));
}

//! The REPL's command core: one dispatcher that takes an input line and the
//! current state, performs what can be performed here — assembly, machine
//! steps, listings — and yields output events and an action for the runtime
//! around it (quit, or fetch a file's contents and call back).
//!
//! The runtime — an interactive loop, or a remote connection feeding lines
//! in — drains the output events to its console or socket. What each line
//! does is pinned down by `spec_run_single`.
use vstd::prelude::*;

use crate::assembler::{spec_assemble, Assembler, AssemblerView};
use crate::errors::{errors_view, AssemblerError, AssemblerErrorView};
use crate::instruction_parser::{all_opcodes, spec_program, spec_program_bytes};
use crate::parser::is_space;
use crate::scheduler::Scheduler;
use crate::symbol::{Symbol, SymbolView};
use crate::vm::{
    spec_header_ok, spec_run_steps, spec_start_state, spec_step, VmState, VM,
};

verus! {

/// One output event of the REPL, for the runtime to render: free text, a
/// prompt, a listing, or a report on what a line did.
#[derive(Debug)]
pub enum ReplOut {
    /// Free text pushed by `send_message`.
    Message(Vec<u8>),
    /// The prompt, to be shown when the REPL awaits the next line.
    Prompt,
    /// One remembered input line.
    HistoryEntry(Vec<u8>),
    /// The machine's program bytes.
    ProgramBytes(Vec<u8>),
    /// The machine's registers.
    Registers(Vec<i32>),
    /// The assembler's symbol table.
    Symbols(Vec<Symbol>),
    /// The line could not be parsed as assembly.
    ParseFailed(AssemblerError),
    /// The line parsed, but holds directives and so cannot run directly.
    NotRunnable,
    /// Assembling a file's contents failed with these errors.
    AssembleFailed(Vec<AssemblerError>),
    /// The contents are too large for the assembler's counters.
    TooLarge,
    /// An assembled program was handed to the machine.
    ProgramLoaded,
    /// A machine copy was handed to the scheduler.
    Spawned,
    /// A command finished.
    Done,
    /// The command is not one the REPL knows.
    Invalid,
}

/// The view of an output event.
pub ghost enum ReplOutView {
    Message(Seq<u8>),
    Prompt,
    HistoryEntry(Seq<u8>),
    ProgramBytes(Seq<u8>),
    Registers(Seq<i32>),
    Symbols(Seq<SymbolView>),
    ParseFailed(AssemblerErrorView),
    NotRunnable,
    AssembleFailed(Seq<AssemblerErrorView>),
    TooLarge,
    ProgramLoaded,
    Spawned,
    Done,
    Invalid,
}

impl View for ReplOut {
    type V = ReplOutView;

    open spec fn view(&self) -> ReplOutView {
        match self {
            ReplOut::Message(m) => ReplOutView::Message(m@),
            ReplOut::Prompt => ReplOutView::Prompt,
            ReplOut::HistoryEntry(l) => ReplOutView::HistoryEntry(l@),
            ReplOut::ProgramBytes(b) => ReplOutView::ProgramBytes(b@),
            ReplOut::Registers(r) => ReplOutView::Registers(r@),
            ReplOut::Symbols(s) => ReplOutView::Symbols(symbols_view(s@)),
            ReplOut::ParseFailed(e) => ReplOutView::ParseFailed(e@),
            ReplOut::NotRunnable => ReplOutView::NotRunnable,
            ReplOut::AssembleFailed(es) => ReplOutView::AssembleFailed(errors_view(es@)),
            ReplOut::TooLarge => ReplOutView::TooLarge,
            ReplOut::ProgramLoaded => ReplOutView::ProgramLoaded,
            ReplOut::Spawned => ReplOutView::Spawned,
            ReplOut::Done => ReplOutView::Done,
            ReplOut::Invalid => ReplOutView::Invalid,
        }
    }
}

/// What the runtime around the REPL must do next.
#[derive(Debug, Clone, Copy, PartialEq, Eq, Structural)]
pub enum ReplAction {
    /// Nothing: await the next line.
    Next,
    /// Leave the loop.
    Quit,
    /// Ask for a file path, read it, and hand the contents to `load_file`.
    LoadFile,
    /// Ask for a file path, read it, and hand the contents to `spawn`.
    SpawnFile,
}

/// The meta-commands the REPL knows, and `Invalid` for the rest.
#[derive(Debug, Clone, Copy, PartialEq, Eq, Structural)]
pub enum ReplCommand {
    Quit,
    History,
    Program,
    Registers,
    ClearProgram,
    ClearRegisters,
    Symbols,
    LoadFile,
    Spawn,
    Invalid,
}

/// The first position at or after `pos` holding whitespace, or the end.
pub open spec fn word_end(s: Seq<u8>, pos: int) -> int
    decreases s.len() - pos when 0 <= pos <= s.len()
{
    if pos < s.len() && !is_space(s[pos]) {
        word_end(s, pos + 1)
    } else {
        pos
    }
}

/// Which command a line's first word names. The word must spell the command
/// exactly, prefix included.
pub open spec fn spec_parse_command(line: Seq<u8>) -> ReplCommand {
    let w = line.subrange(0, word_end(line, 0));
    if w == seq![33u8, 113u8, 117u8, 105u8, 116u8] {
        // !quit
        ReplCommand::Quit
    } else if w == seq![33u8, 104u8, 105u8, 115u8, 116u8, 111u8, 114u8, 121u8] {
        // !history
        ReplCommand::History
    } else if w == seq![33u8, 112u8, 114u8, 111u8, 103u8, 114u8, 97u8, 109u8] {
        // !program
        ReplCommand::Program
    } else if w == seq![33u8, 114u8, 101u8, 103u8, 105u8, 115u8, 116u8, 101u8, 114u8, 115u8] {
        // !registers
        ReplCommand::Registers
    } else if w == seq![
        33u8,
        99u8,
        108u8,
        101u8,
        97u8,
        114u8,
        95u8,
        112u8,
        114u8,
        111u8,
        103u8,
        114u8,
        97u8,
        109u8,
    ] {
        // !clear_program
        ReplCommand::ClearProgram
    } else if w == seq![
        33u8,
        99u8,
        108u8,
        101u8,
        97u8,
        114u8,
        95u8,
        114u8,
        101u8,
        103u8,
        105u8,
        115u8,
        116u8,
        101u8,
        114u8,
        115u8,
    ] {
        // !clear_registers
        ReplCommand::ClearRegisters
    } else if w == seq![33u8, 115u8, 121u8, 109u8, 98u8, 111u8, 108u8, 115u8] {
        // !symbols
        ReplCommand::Symbols
    } else if w == seq![33u8, 108u8, 111u8, 97u8, 100u8, 95u8, 102u8, 105u8, 108u8, 101u8] {
        // !load_file
        ReplCommand::LoadFile
    } else if w == seq![33u8, 115u8, 112u8, 97u8, 119u8, 110u8] {
        // !spawn
        ReplCommand::Spawn
    } else {
        ReplCommand::Invalid
    }
}

/// Returns the first position at or after `pos` that holds whitespace, or
/// the input's end.
pub fn scan_word(s: &[u8], pos: usize) -> (r: usize)
    requires
        pos <= s.len(),
    ensures
        r == word_end(s@, pos as int),
        pos <= r <= s.len(),
{
    let mut i: usize = pos;
    while i < s.len() && !(s[i] == 32 || s[i] == 9 || s[i] == 10 || s[i] == 13)
        invariant
            pos <= i <= s.len(),
            word_end(s@, pos as int) == word_end(s@, i as int),
        decreases s.len() - i,
    {
        i = i + 1;
    }
    i
}

/// Reads which command a line names.
pub fn parse_command(line: &[u8]) -> (c: ReplCommand)
    ensures
        c == spec_parse_command(line@),
{
    let e = scan_word(line, 0);
    let w = vstd::slice::slice_subrange(line, 0, e);
    let n = w.len();
    if n == 5 && w[0] == 33 && w[1] == 113 && w[2] == 117 && w[3] == 105 && w[4] == 116 {
        proof {
            assert(w@ =~= seq![33u8, 113u8, 117u8, 105u8, 116u8]);
        }
        ReplCommand::Quit
    } else if n == 8 && w[0] == 33 && w[1] == 104 && w[2] == 105 && w[3] == 115 && w[4] == 116
        && w[5] == 111 && w[6] == 114 && w[7] == 121 {
        proof {
            assert(w@ =~= seq![33u8, 104u8, 105u8, 115u8, 116u8, 111u8, 114u8, 121u8]);
        }
        ReplCommand::History
    } else if n == 8 && w[0] == 33 && w[1] == 112 && w[2] == 114 && w[3] == 111 && w[4] == 103
        && w[5] == 114 && w[6] == 97 && w[7] == 109 {
        proof {
            assert(w@ =~= seq![33u8, 112u8, 114u8, 111u8, 103u8, 114u8, 97u8, 109u8]);
        }
        ReplCommand::Program
    } else if n == 10 && w[0] == 33 && w[1] == 114 && w[2] == 101 && w[3] == 103 && w[4] == 105
        && w[5] == 115 && w[6] == 116 && w[7] == 101 && w[8] == 114 && w[9] == 115 {
        proof {
            assert(w@ =~= seq![
                33u8,
                114u8,
                101u8,
                103u8,
                105u8,
                115u8,
                116u8,
                101u8,
                114u8,
                115u8,
            ]);
        }
        ReplCommand::Registers
    } else if n == 14 && w[0] == 33 && w[1] == 99 && w[2] == 108 && w[3] == 101 && w[4] == 97
        && w[5] == 114 && w[6] == 95 && w[7] == 112 && w[8] == 114 && w[9] == 111 && w[10] == 103
        && w[11] == 114 && w[12] == 97 && w[13] == 109 {
        proof {
            assert(w@ =~= seq![
                33u8,
                99u8,
                108u8,
                101u8,
                97u8,
                114u8,
                95u8,
                112u8,
                114u8,
                111u8,
                103u8,
                114u8,
                97u8,
                109u8,
            ]);
        }
        ReplCommand::ClearProgram
    } else if n == 16 && w[0] == 33 && w[1] == 99 && w[2] == 108 && w[3] == 101 && w[4] == 97
        && w[5] == 114 && w[6] == 95 && w[7] == 114 && w[8] == 101 && w[9] == 103 && w[10] == 105
        && w[11] == 115 && w[12] == 116 && w[13] == 101 && w[14] == 114 && w[15] == 115 {
        proof {
            assert(w@ =~= seq![
                33u8,
                99u8,
                108u8,
                101u8,
                97u8,
                114u8,
                95u8,
                114u8,
                101u8,
                103u8,
                105u8,
                115u8,
                116u8,
                101u8,
                114u8,
                115u8,
            ]);
        }
        ReplCommand::ClearRegisters
    } else if n == 8 && w[0] == 33 && w[1] == 115 && w[2] == 121 && w[3] == 109 && w[4] == 98
        && w[5] == 111 && w[6] == 108 && w[7] == 115 {
        proof {
            assert(w@ =~= seq![33u8, 115u8, 121u8, 109u8, 98u8, 111u8, 108u8, 115u8]);
        }
        ReplCommand::Symbols
    } else if n == 10 && w[0] == 33 && w[1] == 108 && w[2] == 111 && w[3] == 97 && w[4] == 100
        && w[5] == 95 && w[6] == 102 && w[7] == 105 && w[8] == 108 && w[9] == 101 {
        proof {
            assert(w@ =~= seq![
                33u8,
                108u8,
                111u8,
                97u8,
                100u8,
                95u8,
                102u8,
                105u8,
                108u8,
                101u8,
            ]);
        }
        ReplCommand::LoadFile
    } else if n == 6 && w[0] == 33 && w[1] == 115 && w[2] == 112 && w[3] == 97 && w[4] == 119
        && w[5] == 110 {
        proof {
            assert(w@ =~= seq![33u8, 115u8, 112u8, 97u8, 119u8, 110u8]);
        }
        ReplCommand::Spawn
    } else {
        proof {
            lemma_command_words_distinct(w@);
        }
        ReplCommand::Invalid
    }
}

/// In the unmatched arm of `parse_command`, the word differs from every
/// command's spelling, each equality being excluded by its length and
/// bytes.
proof fn lemma_command_words_distinct(w: Seq<u8>)
    requires
        !(w.len() == 5 && w[0] == 33 && w[1] == 113 && w[2] == 117 && w[3] == 105 && w[4] == 116),
        !(w.len() == 8 && w[0] == 33 && w[1] == 104 && w[2] == 105 && w[3] == 115 && w[4] == 116
            && w[5] == 111 && w[6] == 114 && w[7] == 121),
        !(w.len() == 8 && w[0] == 33 && w[1] == 112 && w[2] == 114 && w[3] == 111 && w[4] == 103
            && w[5] == 114 && w[6] == 97 && w[7] == 109),
        !(w.len() == 10 && w[0] == 33 && w[1] == 114 && w[2] == 101 && w[3] == 103 && w[4] == 105
            && w[5] == 115 && w[6] == 116 && w[7] == 101 && w[8] == 114 && w[9] == 115),
        !(w.len() == 14 && w[0] == 33 && w[1] == 99 && w[2] == 108 && w[3] == 101 && w[4] == 97
            && w[5] == 114 && w[6] == 95 && w[7] == 112 && w[8] == 114 && w[9] == 111 && w[10]
            == 103 && w[11] == 114 && w[12] == 97 && w[13] == 109),
        !(w.len() == 16 && w[0] == 33 && w[1] == 99 && w[2] == 108 && w[3] == 101 && w[4] == 97
            && w[5] == 114 && w[6] == 95 && w[7] == 114 && w[8] == 101 && w[9] == 103 && w[10]
            == 105 && w[11] == 115 && w[12] == 116 && w[13] == 101 && w[14] == 114 && w[15]
            == 115),
        !(w.len() == 8 && w[0] == 33 && w[1] == 115 && w[2] == 121 && w[3] == 109 && w[4] == 98
            && w[5] == 111 && w[6] == 108 && w[7] == 115),
        !(w.len() == 10 && w[0] == 33 && w[1] == 108 && w[2] == 111 && w[3] == 97 && w[4] == 100
            && w[5] == 95 && w[6] == 102 && w[7] == 105 && w[8] == 108 && w[9] == 101),
        !(w.len() == 6 && w[0] == 33 && w[1] == 115 && w[2] == 112 && w[3] == 97 && w[4] == 119
            && w[5] == 110),
    ensures
        w != seq![33u8, 113u8, 117u8, 105u8, 116u8],
        w != seq![33u8, 104u8, 105u8, 115u8, 116u8, 111u8, 114u8, 121u8],
        w != seq![33u8, 112u8, 114u8, 111u8, 103u8, 114u8, 97u8, 109u8],
        w != seq![33u8, 114u8, 101u8, 103u8, 105u8, 115u8, 116u8, 101u8, 114u8, 115u8],
        w != seq![
            33u8,
            99u8,
            108u8,
            101u8,
            97u8,
            114u8,
            95u8,
            112u8,
            114u8,
            111u8,
            103u8,
            114u8,
            97u8,
            109u8,
        ],
        w != seq![
            33u8,
            99u8,
            108u8,
            101u8,
            97u8,
            114u8,
            95u8,
            114u8,
            101u8,
            103u8,
            105u8,
            115u8,
            116u8,
            101u8,
            114u8,
            115u8,
        ],
        w != seq![33u8, 115u8, 121u8, 109u8, 98u8, 111u8, 108u8, 115u8],
        w != seq![33u8, 108u8, 111u8, 97u8, 100u8, 95u8, 102u8, 105u8, 108u8, 101u8],
        w != seq![33u8, 115u8, 112u8, 97u8, 119u8, 110u8],
{
}

/// The REPL's whole state, over mathematical types: the input history, the
/// machine, the assembler, and the pending output events.
pub ghost struct ReplState {
    pub history: Seq<Seq<u8>>,
    pub vm: VmState,
    pub assembler: AssemblerView,
    pub outputs: Seq<ReplOutView>,
}

/// The view of an input history.
pub open spec fn history_view(v: Seq<Vec<u8>>) -> Seq<Seq<u8>> {
    v.map_values(|l: Vec<u8>| l@)
}

/// The view of a symbol list.
pub open spec fn symbols_view(v: Seq<Symbol>) -> Seq<SymbolView> {
    v.map_values(|s: Symbol| s@)
}

/// A history rendered as one output event per remembered line.
pub open spec fn history_entries(h: Seq<Seq<u8>>) -> Seq<ReplOutView> {
    h.map_values(|l: Seq<u8>| ReplOutView::HistoryEntry(l))
}

/// The view of a pending output list.
pub open spec fn outputs_view(v: Seq<ReplOut>) -> Seq<ReplOutView> {
    v.map_values(|o: ReplOut| o@)
}

/// The REPL: the input history, the machine it drives, the assembler whose
/// symbol table raw lines are encoded against, the scheduler handle, and
/// the output events not yet drained by the runtime.
#[derive(Debug)]
pub struct REPL {
    pub command_buffer: Vec<Vec<u8>>,
    pub vm: VM,
    pub assembler: Assembler,
    pub scheduler: Scheduler,
    pub output: Vec<ReplOut>,
}

impl View for REPL {
    type V = ReplState;

    open spec fn view(&self) -> ReplState {
        ReplState {
            history: history_view(self.command_buffer@),
            vm: self.vm@,
            assembler: self.assembler@,
            outputs: outputs_view(self.output@),
        }
    }
}

/// Whether the assembler's counters can take a source of `n` bytes without
/// leaving machine range.
pub open spec fn spec_fits(assembler: AssemblerView, n: int) -> bool {
    assembler.ro_offset + n <= u32::MAX && assembler.current_instruction + n <= u32::MAX
}

/// What one input line does. The line enters the history. A line opening
/// with the command prefix `!` dispatches on its first word: listings push
/// their output events, the clearing commands reset the machine's program
/// or registers, and `quit`, `load_file` and `spawn` become actions for the
/// runtime. Any other line is parsed as assembly; a line of plain
/// instructions is encoded against the symbol table, appended to the
/// machine's program, and one machine step is executed.
pub open spec fn spec_run_single(st: ReplState, line: Seq<u8>) -> (ReplState, ReplAction) {
    let st1 = ReplState { history: st.history.push(line), ..st };
    if line.len() > 0 && line[0] == 33 {
        match spec_parse_command(line) {
            ReplCommand::Quit => (st1, ReplAction::Quit),
            ReplCommand::History => (
                ReplState {
                    outputs: st1.outputs + history_entries(st1.history) + seq![
                        ReplOutView::Prompt,
                    ],
                    ..st1
                },
                ReplAction::Next,
            ),
            ReplCommand::Program => (
                ReplState {
                    outputs: st1.outputs + seq![
                        ReplOutView::ProgramBytes(st1.vm.program),
                        ReplOutView::Prompt,
                    ],
                    ..st1
                },
                ReplAction::Next,
            ),
            ReplCommand::Registers => (
                ReplState {
                    outputs: st1.outputs + seq![
                        ReplOutView::Registers(st1.vm.registers),
                        ReplOutView::Prompt,
                    ],
                    ..st1
                },
                ReplAction::Next,
            ),
            ReplCommand::ClearProgram => (
                ReplState {
                    vm: VmState { program: Seq::empty(), ..st1.vm },
                    outputs: st1.outputs + seq![ReplOutView::Done, ReplOutView::Prompt],
                    ..st1
                },
                ReplAction::Next,
            ),
            ReplCommand::ClearRegisters => (
                ReplState {
                    vm: VmState {
                        registers: Seq::new(st1.vm.registers.len(), |i: int| 0i32),
                        ..st1.vm
                    },
                    outputs: st1.outputs + seq![ReplOutView::Done, ReplOutView::Prompt],
                    ..st1
                },
                ReplAction::Next,
            ),
            ReplCommand::Symbols => (
                ReplState {
                    outputs: st1.outputs + seq![
                        ReplOutView::Symbols(st1.assembler.symbols),
                        ReplOutView::Prompt,
                    ],
                    ..st1
                },
                ReplAction::Next,
            ),
            ReplCommand::LoadFile => (st1, ReplAction::LoadFile),
            ReplCommand::Spawn => (st1, ReplAction::SpawnFile),
            ReplCommand::Invalid => (
                ReplState { outputs: st1.outputs.push(ReplOutView::Invalid), ..st1 },
                ReplAction::Next,
            ),
        }
    } else {
        match spec_program(line) {
            Err(rem) => (
                ReplState {
                    outputs: st1.outputs.push(
                        ReplOutView::ParseFailed(
                            AssemblerErrorView::ParseError { remainder: rem },
                        ),
                    ),
                    ..st1
                },
                ReplAction::Next,
            ),
            Ok(ivs) => {
                if !all_opcodes(ivs) {
                    (
                        ReplState { outputs: st1.outputs.push(ReplOutView::NotRunnable), ..st1 },
                        ReplAction::Next,
                    )
                } else {
                    let vm1 = VmState {
                        program: st1.vm.program + spec_program_bytes(ivs, st1.assembler.symbols),
                        ..st1.vm
                    };
                    (ReplState { vm: spec_step(vm1).0, ..st1 }, ReplAction::Next)
                }
            },
        }
    }
}

impl REPL {
    /// A fresh REPL: empty history and output, a fresh machine, a fresh
    /// assembler, a fresh scheduler.
    pub fn new() -> (r: REPL)
        ensures
            r@.history == Seq::<Seq<u8>>::empty(),
            r@.outputs == Seq::<ReplOutView>::empty(),
            r@.vm.registers.len() == 32,
            forall|i: int| 0 <= i < 32 ==> r@.vm.registers[i] == 0,
            r@.vm.program == Seq::<u8>::empty(),
            r@.vm.pc == 0,
            r@.assembler == crate::assembler::spec_fresh_assembler(),
            r.scheduler.next_pid == 0,
            r.scheduler.max_pid == 50000,
            r.vm.events@ == Seq::<crate::vm::VMEvent>::empty(),
    {
        let r = REPL {
            command_buffer: Vec::new(),
            vm: VM::new(),
            assembler: Assembler::new(),
            scheduler: Scheduler::new(),
            output: Vec::new(),
        };
        proof {
            assert(r@.history =~= Seq::<Seq<u8>>::empty());
            assert(r@.outputs =~= Seq::<ReplOutView>::empty());
        }
        r
    }

    /// Appends a free-text message to the pending output.
    pub fn send_message(&mut self, msg: Vec<u8>)
        ensures
            final (self)@ == (ReplState {
                outputs: old(self)@.outputs.push(ReplOutView::Message(msg@)),
                ..old(self)@
            }),
            final (self).scheduler == old(self).scheduler,
            final (self).vm.events@ == old(self).vm.events@,
            final (self).vm.id == old(self).vm.id,
    {
        let ghost pre = self@;
        let ghost mv = msg@;
        self.output.push(ReplOut::Message(msg));
        proof {
            assert(self@.outputs =~= pre.outputs.push(ReplOutView::Message(mv)));
        }
    }

    /// Appends the prompt to the pending output.
    pub fn send_prompt(&mut self)
        ensures
            final (self)@ == (ReplState {
                outputs: old(self)@.outputs.push(ReplOutView::Prompt),
                ..old(self)@
            }),
            final (self).scheduler == old(self).scheduler,
            final (self).vm.events@ == old(self).vm.events@,
            final (self).vm.id == old(self).vm.id,
    {
        let ghost pre = self@;
        self.output.push(ReplOut::Prompt);
        proof {
            assert(self@.outputs =~= pre.outputs.push(ReplOutView::Prompt));
        }
    }

    /// Hands the pending output events to the runtime and clears them here.
    pub fn take_output(&mut self) -> (r: Vec<ReplOut>)
        ensures
            outputs_view(r@) == old(self)@.outputs,
            final (self)@ == (ReplState { outputs: Seq::empty(), ..old(self)@ }),
            final (self).scheduler == old(self).scheduler,
            final (self).vm.events@ == old(self).vm.events@,
            final (self).vm.id == old(self).vm.id,
    {
        let mut out: Vec<ReplOut> = Vec::new();
        core::mem::swap(&mut out, &mut self.output);
        proof {
            assert(self@.outputs =~= Seq::<ReplOutView>::empty());
        }
        out
    }

    /// Dispatches one input line, as `spec_run_single` says, and returns
    /// what the runtime must do next.
    pub fn run_single(&mut self, buffer: &[u8]) -> (r: ReplAction)
        requires
            old(self).vm@.registers.len() == 32,
        ensures
            ({
                let (st, act) = spec_run_single(old(self)@, buffer@);
                final (self)@ == st && r == act
            }),
            final (self).vm@.registers.len() == 32,
            final (self).scheduler == old(self).scheduler,
            final (self).vm.events@ == old(self).vm.events@,
            final (self).vm.id == old(self).vm.id,
    {
        let ghost pre = self@;
        let line = vstd::slice::slice_to_vec(buffer);
        self.command_buffer.push(line);
        proof {
            assert(self@.history =~= pre.history.push(buffer@));
        }
        let ghost st1 = ReplState { history: pre.history.push(buffer@), ..pre };
        if buffer.len() > 0 && buffer[0] == 33 {
            match parse_command(buffer) {
                ReplCommand::Quit => ReplAction::Quit,
                ReplCommand::History => {
                    let ghost mid = self@;
                    let mut outs: Vec<ReplOut> = Vec::new();
                    let n = self.command_buffer.len();
                    let mut i: usize = 0;
                    while i < n
                        invariant
                            i <= n,
                            n == self.command_buffer.len(),
                            outputs_view(outs@) =~= history_entries(self@.history).subrange(
                                0,
                                i as int,
                            ),
                        decreases n - i,
                    {
                        proof {
                            assert(self@.history[i as int] == self.command_buffer@[i as int]@);
                            assert(history_entries(self@.history)[i as int]
                                == ReplOutView::HistoryEntry(self@.history[i as int]));
                        }
                        let ghost pre_outs = outs@;
                        let entry = ReplOut::HistoryEntry(
                            vstd::slice::slice_to_vec(self.command_buffer[i].as_slice()),
                        );
                        let ghost ev = entry@;
                        outs.push(entry);
                        proof {
                            assert(outputs_view(outs@) =~= outputs_view(pre_outs).push(ev));
                            assert(outputs_view(outs@) =~= history_entries(
                                self@.history,
                            ).subrange(0, i as int + 1));
                        }
                        i = i + 1;
                    }
                    let ghost outpre = self@.outputs;
                    let mut outs2 = outs;
                    self.output.append(&mut outs2);
                    self.output.push(ReplOut::Prompt);
                    proof {
                        assert(history_entries(self@.history).subrange(0, n as int)
                            =~= history_entries(self@.history));
                        assert(self@.outputs =~= outpre + history_entries(self@.history) + seq![
                            ReplOutView::Prompt,
                        ]);
                    }
                    ReplAction::Next
                },
                ReplCommand::Program => {
                    let listing = vstd::slice::slice_to_vec(self.vm.program.as_slice());
                    let ghost outpre = self@.outputs;
                    self.output.push(ReplOut::ProgramBytes(listing));
                    self.output.push(ReplOut::Prompt);
                    proof {
                        assert(self@.outputs =~= outpre + seq![
                            ReplOutView::ProgramBytes(self@.vm.program),
                            ReplOutView::Prompt,
                        ]);
                    }
                    ReplAction::Next
                },
                ReplCommand::Registers => {
                    let listing = vstd::slice::slice_to_vec(self.vm.registers.as_slice());
                    let ghost outpre = self@.outputs;
                    self.output.push(ReplOut::Registers(listing));
                    self.output.push(ReplOut::Prompt);
                    proof {
                        assert(self@.outputs =~= outpre + seq![
                            ReplOutView::Registers(self@.vm.registers),
                            ReplOutView::Prompt,
                        ]);
                    }
                    ReplAction::Next
                },
                ReplCommand::ClearProgram => {
                    self.vm.program.clear();
                    let ghost outpre = self@.outputs;
                    self.output.push(ReplOut::Done);
                    self.output.push(ReplOut::Prompt);
                    proof {
                        assert(self@.vm.program =~= Seq::<u8>::empty());
                        assert(self@.outputs =~= outpre + seq![
                            ReplOutView::Done,
                            ReplOutView::Prompt,
                        ]);
                    }
                    ReplAction::Next
                },
                ReplCommand::ClearRegisters => {
                    let zeros = Self::zero_registers(self.vm.registers.len());
                    self.vm.registers = zeros;
                    let ghost outpre = self@.outputs;
                    self.output.push(ReplOut::Done);
                    self.output.push(ReplOut::Prompt);
                    proof {
                        assert(self@.vm.registers =~= Seq::new(
                            st1.vm.registers.len(),
                            |i: int| 0i32,
                        ));
                        assert(self@.outputs =~= outpre + seq![
                            ReplOutView::Done,
                            ReplOutView::Prompt,
                        ]);
                    }
                    ReplAction::Next
                },
                ReplCommand::Symbols => {
                    let listing = Self::clone_symbols(&self.assembler.symbols.symbols);
                    let ghost outpre = self@.outputs;
                    self.output.push(ReplOut::Symbols(listing));
                    self.output.push(ReplOut::Prompt);
                    proof {
                        assert(self@.outputs =~= outpre + seq![
                            ReplOutView::Symbols(self@.assembler.symbols),
                            ReplOutView::Prompt,
                        ]);
                    }
                    ReplAction::Next
                },
                ReplCommand::LoadFile => ReplAction::LoadFile,
                ReplCommand::Spawn => ReplAction::SpawnFile,
                ReplCommand::Invalid => {
                    let ghost outpre = self@.outputs;
                    self.output.push(ReplOut::Invalid);
                    proof {
                        assert(self@.outputs =~= outpre.push(ReplOutView::Invalid));
                    }
                    ReplAction::Next
                },
            }
        } else {
            match crate::instruction_parser::program(buffer) {
                Err(e) => {
                    let ghost outpre = self@.outputs;
                    let ghost ev = e@;
                    self.output.push(ReplOut::ParseFailed(e));
                    proof {
                        assert(self@.outputs =~= outpre.push(ReplOutView::ParseFailed(ev)));
                    }
                    ReplAction::Next
                },
                Ok(p) => {
                    proof {
                        crate::instruction_parser::lemma_program_instructions_wf(buffer@);
                    }
                    let mut all_ops = true;
                    let n = p.instructions.len();
                    let mut i: usize = 0;
                    while i < n
                        invariant
                            i <= n,
                            n == p.instructions.len(),
                            all_ops == (forall|j: int|
                                0 <= j < i ==> (#[trigger] p@[j].opcode) is Some),
                        decreases n - i,
                    {
                        proof {
                            assert(p@[i as int] == p.instructions@[i as int]@);
                        }
                        if !p.instructions[i].opcode.is_some() {
                            all_ops = false;
                        }
                        i = i + 1;
                    }
                    if !all_ops {
                        let ghost outpre = self@.outputs;
                        self.output.push(ReplOut::NotRunnable);
                        proof {
                            let ivs = spec_program(buffer@)->Ok_0;
                            assert(!all_opcodes(ivs));
                            assert(self@.outputs =~= outpre.push(ReplOutView::NotRunnable));
                        }
                        ReplAction::Next
                    } else {
                        proof {
                            let ivs = spec_program(buffer@)->Ok_0;
                            assert(all_opcodes(ivs));
                        }
                        let bytes = p.to_bytes(&self.assembler.symbols);
                        self.vm.add_bytes(bytes);
                        self.vm.run_once();
                        ReplAction::Next
                    }
                },
            }
        }
    }

    /// A register file of that many zeroed registers.
    fn zero_registers(n: usize) -> (r: Vec<i32>)
        ensures
            r@ =~= Seq::new(n as nat, |i: int| 0i32),
    {
        let mut r: Vec<i32> = Vec::new();
        let mut i: usize = 0;
        while i < n
            invariant
                i <= n,
                r@ =~= Seq::new(i as nat, |j: int| 0i32),
            decreases n - i,
        {
            r.push(0);
            proof {
                assert(r@ =~= Seq::new(i as nat + 1, |j: int| 0i32));
            }
            i = i + 1;
        }
        r
    }

    /// A copy of a symbol list; each entry reads as the one it copies.
    fn clone_symbols(v: &Vec<Symbol>) -> (r: Vec<Symbol>)
        ensures
            symbols_view(r@) == symbols_view(v@),
    {
        let mut r: Vec<Symbol> = Vec::new();
        let mut i: usize = 0;
        while i < v.len()
            invariant
                i <= v.len(),
                symbols_view(r@) =~= symbols_view(v@).subrange(0, i as int),
            decreases v.len() - i,
        {
            proof {
                assert(v@[i as int]@ == symbols_view(v@)[i as int]);
            }
            let ghost pre = r@;
            let e = v[i].clone();
            let ghost ev = e@;
            r.push(e);
            proof {
                assert(symbols_view(r@) =~= symbols_view(pre).push(ev));
                assert(symbols_view(r@) =~= symbols_view(v@).subrange(0, i as int + 1));
            }
            i = i + 1;
        }
        proof {
            assert(symbols_view(v@).subrange(0, v@.len() as int) =~= symbols_view(v@));
        }
        r
    }

    /// Assembles a file's contents, hands the image to the machine, and
    /// runs the machine to completion in place. Contents too large for the
    /// assembler's counters are rejected; assembly errors are reported to
    /// the output; on success the image is appended to the machine's
    /// program and the machine runs, logging its lifecycle events — to the
    /// end for any program that terminates within the interpreter's full
    /// step budget.
    pub fn load_file(&mut self, contents: &[u8])
        requires
            old(self).vm@.registers.len() == 32,
        ensures
            final (self).scheduler == old(self).scheduler,
            final (self)@.history == old(self)@.history,
            final (self).vm.id == old(self).vm.id,
            final (self)@.vm.registers.len() == 32,
            !spec_fits(old(self)@.assembler, contents@.len() as int) ==> final (self)@ == (ReplState {
                outputs: old(self)@.outputs.push(ReplOutView::TooLarge),
                ..old(self)@
            }),
            spec_fits(old(self)@.assembler, contents@.len() as int) ==> ({
                let (asm1, res) = spec_assemble(old(self)@.assembler, contents@);
                match res {
                    Err(es) => final (self)@ == (ReplState {
                        assembler: asm1,
                        outputs: old(self)@.outputs + seq![
                            ReplOutView::AssembleFailed(es),
                            ReplOutView::Prompt,
                        ],
                        ..old(self)@
                    }),
                    Ok(bytes) => {
                        &&& final (self)@.assembler == asm1
                        &&& final (self)@.outputs == old(self)@.outputs.push(
                            ReplOutView::ProgramLoaded,
                        )
                        &&& final (self).vm.events@.len() == old(self).vm.events@.len() + 2
                        &&& ({
                            let vm1 = VmState {
                                program: old(self)@.vm.program + bytes,
                                ..old(self)@.vm
                            };
                            if !spec_header_ok(vm1.program) {
                                final (self)@.vm == vm1
                            } else {
                                exists|n: nat|
                                    #![trigger spec_run_steps(spec_start_state(vm1), n)]
                                    {
                                        let (sf, st) = spec_run_steps(spec_start_state(vm1), n);
                                        &&& final (self)@.vm == sf
                                        &&& (st == crate::vm::StepStatus::Continue ==> n
                                            == u64::MAX)
                                    }
                            }
                        })
                    },
                }
            }),
    {
        let n64 = contents.len() as u64;
        let fits = n64 <= u32::MAX as u64 && (self.assembler.ro_offset as u64 + n64
            <= u32::MAX as u64) && (self.assembler.current_instruction as u64 + n64
            <= u32::MAX as u64);
        if !fits {
            let ghost outpre = self@.outputs;
            self.output.push(ReplOut::TooLarge);
            proof {
                assert(self@.outputs =~= outpre.push(ReplOutView::TooLarge));
            }
            return ;
        }
        proof {
            crate::assembler::lemma_program_cost(contents@);
        }
        let result = self.assembler.assemble(contents);
        match result {
            Ok(bytes) => {
                let ghost outpre = self@.outputs;
                self.output.push(ReplOut::ProgramLoaded);
                proof {
                    assert(self@.outputs =~= outpre.push(ReplOutView::ProgramLoaded));
                }
                self.vm.add_bytes(bytes);
                let _ = self.vm.run();
            },
            Err(es) => {
                let ghost outpre = self@.outputs;
                let ghost esv = errors_view(es@);
                self.output.push(ReplOut::AssembleFailed(es));
                self.output.push(ReplOut::Prompt);
                proof {
                    assert(self@.outputs =~= outpre + seq![
                        ReplOutView::AssembleFailed(esv),
                        ReplOutView::Prompt,
                    ]);
                }
            },
        }
    }

    /// Assembles a file's contents, appends the image to this REPL's own
    /// machine, and returns a copy of that machine for the scheduler to run
    /// on its own thread. Errors are reported as `load_file` reports them,
    /// and nothing is returned.
    pub fn spawn(&mut self, contents: &[u8]) -> (r: Option<VM>)
        ensures
            final (self).scheduler == old(self).scheduler,
            final (self)@.history == old(self)@.history,
            final (self).vm.id == old(self).vm.id,
            final (self).vm.events@ == old(self).vm.events@,
            !spec_fits(old(self)@.assembler, contents@.len() as int) ==> final (self)@ == (ReplState {
                outputs: old(self)@.outputs.push(ReplOutView::TooLarge),
                ..old(self)@
            }) && r is None,
            spec_fits(old(self)@.assembler, contents@.len() as int) ==> ({
                let (asm1, res) = spec_assemble(old(self)@.assembler, contents@);
                match res {
                    Err(es) => final (self)@ == (ReplState {
                        assembler: asm1,
                        outputs: old(self)@.outputs + seq![
                            ReplOutView::AssembleFailed(es),
                            ReplOutView::Prompt,
                        ],
                        ..old(self)@
                    }) && r is None,
                    Ok(bytes) => {
                        &&& final (self)@ == (ReplState {
                            assembler: asm1,
                            vm: VmState {
                                program: old(self)@.vm.program + bytes,
                                ..old(self)@.vm
                            },
                            outputs: old(self)@.outputs + seq![
                                ReplOutView::ProgramLoaded,
                                ReplOutView::Spawned,
                            ],
                            ..old(self)@
                        })
                        &&& r matches Some(copy) && copy@ == final (self)@.vm && copy.events@
                            == final (self).vm.events@ && copy.id == final (self).vm.id
                    },
                }
            }),
    {
        let n64 = contents.len() as u64;
        let fits = n64 <= u32::MAX as u64 && (self.assembler.ro_offset as u64 + n64
            <= u32::MAX as u64) && (self.assembler.current_instruction as u64 + n64
            <= u32::MAX as u64);
        if !fits {
            let ghost outpre = self@.outputs;
            self.output.push(ReplOut::TooLarge);
            proof {
                assert(self@.outputs =~= outpre.push(ReplOutView::TooLarge));
            }
            return None;
        }
        proof {
            crate::assembler::lemma_program_cost(contents@);
        }
        let result = self.assembler.assemble(contents);
        match result {
            Ok(bytes) => {
                let ghost outpre = self@.outputs;
                self.vm.add_bytes(bytes);
                self.output.push(ReplOut::ProgramLoaded);
                self.output.push(ReplOut::Spawned);
                proof {
                    assert(self@.outputs =~= outpre + seq![
                        ReplOutView::ProgramLoaded,
                        ReplOutView::Spawned,
                    ]);
                }
                Some(self.vm.clone())
            },
            Err(es) => {
                let ghost outpre = self@.outputs;
                let ghost esv = errors_view(es@);
                self.output.push(ReplOut::AssembleFailed(es));
                self.output.push(ReplOut::Prompt);
                proof {
                    assert(self@.outputs =~= outpre + seq![
                        ReplOutView::AssembleFailed(esv),
                        ReplOutView::Prompt,
                    ]);
                }
                None
            },
        }
    }
}

} // verus!

//! The two-phase assembler: a label and section scan that builds the symbol
//! table and the read-only data segment, then code generation that emits the
//! program image.
//!
//! Both phases are specified as fold functions over the parsed instruction
//! sequence, and each executable method is proved to produce exactly the
//! state the specification says.
use vstd::prelude::*;

use crate::errors::{errors_view, AssemblerError, AssemblerErrorView};
use crate::instruction_parser::{
    all_opcodes, opt_pos, program, spec_directive_name, spec_instruction, spec_instruction_bytes,
    spec_instructions, spec_is_label, spec_label_name, spec_program, spec_string_constant,
    AssemblerInstruction, InstrView, Program,
};
use crate::parser::{
    lemma_token_parsers_bounds, spec_directive_declaration, spec_label_declaration, spec_opcode,
    spec_operand,
};
use crate::symbol::{
    spec_has_symbol, spec_set_symbol_offset, spec_symbol_value, Symbol, SymbolTable, SymbolType,
    SymbolView,
};

verus! {

/// The four magic bytes that begin every program image.
pub open spec fn spec_pie_prefix() -> Seq<u8> {
    seq![45u8, 50u8, 49u8, 45u8]
}

/// The length of the zero-padded header region: the magic prefix and its
/// padding, not counting the four-byte code-start field that follows.
pub const PIE_HEADER_LENGTH: usize = 64;

/// Which pass the assembler is in.
#[derive(Debug, PartialEq, Eq, Structural, Clone, Copy)]
pub enum AssemblerPhase {
    First,
    Second,
}

impl Default for AssemblerPhase {
    /// A fresh assembler starts in the first phase.
    fn default() -> (r: AssemblerPhase)
        ensures
            r == AssemblerPhase::First,
    {
        AssemblerPhase::First
    }
}

/// A section of the program, as declared by a section header directive.
#[derive(Debug, Clone, Copy)]
pub enum AssemblerSection {
    Data { starting_instruction: Option<u32> },
    Code { starting_instruction: Option<u32> },
    Unknown,
}

impl Default for AssemblerSection {
    /// A section of no known name.
    fn default() -> (r: AssemblerSection)
        ensures
            r == AssemblerSection::Unknown,
    {
        AssemblerSection::Unknown
    }
}

/// The byte spelling of the `data` section name.
pub open spec fn spec_data_name() -> Seq<u8> {
    seq![100u8, 97u8, 116u8, 97u8]
}

/// The byte spelling of the `code` section name.
pub open spec fn spec_code_name() -> Seq<u8> {
    seq![99u8, 111u8, 100u8, 101u8]
}

/// The byte spelling of the `asciiz` directive name.
pub open spec fn spec_asciiz_name() -> Seq<u8> {
    seq![97u8, 115u8, 99u8, 105u8, 105u8, 122u8]
}

/// The section a header name declares: `data` and `code` name their
/// sections, anything else is unknown.
pub open spec fn spec_section_of_name(name: Seq<u8>) -> AssemblerSection {
    if name == spec_data_name() {
        AssemblerSection::Data { starting_instruction: None }
    } else if name == spec_code_name() {
        AssemblerSection::Code { starting_instruction: None }
    } else {
        AssemblerSection::Unknown
    }
}

/// The assembler's whole state, over mathematical types. The read-only
/// cursor and the instruction counter are unbounded here; the executable
/// methods keep them within machine range.
pub ghost struct AssemblerView {
    pub phase: AssemblerPhase,
    pub symbols: Seq<SymbolView>,
    pub ro: Seq<u8>,
    pub bytecode: Seq<u8>,
    pub ro_offset: int,
    pub sections: Seq<AssemblerSection>,
    pub current_section: Option<AssemblerSection>,
    pub current_instruction: int,
    pub errors: Seq<AssemblerErrorView>,
}

/// The assembler: the phase marker, the symbol table, the read-only segment
/// and its write cursor, the sections seen so far, the open section, the
/// running instruction counter, and the errors collected so far.
#[derive(Debug)]
pub struct Assembler {
    pub phase: AssemblerPhase,
    pub symbols: SymbolTable,
    pub ro: Vec<u8>,
    pub bytecode: Vec<u8>,
    pub ro_offset: u32,
    pub sections: Vec<AssemblerSection>,
    pub current_section: Option<AssemblerSection>,
    pub current_instruction: u32,
    pub errors: Vec<AssemblerError>,
}

impl View for Assembler {
    type V = AssemblerView;

    open spec fn view(&self) -> AssemblerView {
        AssemblerView {
            phase: self.phase,
            symbols: self.symbols@,
            ro: self.ro@,
            bytecode: self.bytecode@,
            ro_offset: self.ro_offset as int,
            sections: self.sections@,
            current_section: self.current_section,
            current_instruction: self.current_instruction as int,
            errors: errors_view(self.errors@),
        }
    }
}

/// What declaring a label does: a missing name is a string constant without
/// a label; a name already in the table is a duplicate declaration; a new
/// name enters the table unresolved.
pub open spec fn spec_process_label_declaration(st: AssemblerView, iv: InstrView) -> AssemblerView {
    match spec_label_name(iv) {
        None => AssemblerView {
            errors: st.errors.push(
                AssemblerErrorView::StringConstantDeclaredWithoutLabel {
                    instruction: st.current_instruction as u32,
                },
            ),
            ..st
        },
        Some(name) => {
            if spec_has_symbol(st.symbols, name) {
                AssemblerView { errors: st.errors.push(AssemblerErrorView::SymbolAlreadyDeclared), ..st }
            } else {
                AssemblerView {
                    symbols: st.symbols.push(
                        SymbolView { name, offset: None, symbol_type: SymbolType::Label },
                    ),
                    ..st
                }
            }
        },
    }
}

/// What a section header does: a known name is recorded and opened; an
/// unknown name is rejected as an unknown directive.
pub open spec fn spec_process_section_header(st: AssemblerView, name: Seq<u8>) -> AssemblerView {
    let sec = spec_section_of_name(name);
    if sec is Unknown {
        AssemblerView {
            errors: st.errors.push(AssemblerErrorView::UnknownDirectiveFound { directive: name }),
            ..st
        }
    } else {
        AssemblerView { sections: st.sections.push(sec), current_section: Some(sec), ..st }
    }
}

/// What an `asciiz` directive does, in the first phase only: the
/// instruction's label is resolved to the current read-only cursor, and the
/// string's bytes plus one terminating zero byte are laid into the read-only
/// segment. Without a label the constant is rejected; without a string
/// nothing happens.
pub open spec fn spec_handle_asciiz(st: AssemblerView, iv: InstrView) -> AssemblerView {
    if st.phase != AssemblerPhase::First {
        st
    } else {
        match spec_string_constant(iv) {
            None => st,
            Some(content) => match spec_label_name(iv) {
                None => AssemblerView {
                    errors: st.errors.push(
                        AssemblerErrorView::StringConstantDeclaredWithoutLabel {
                            instruction: st.current_instruction as u32,
                        },
                    ),
                    ..st
                },
                Some(name) => AssemblerView {
                    symbols: spec_set_symbol_offset(st.symbols, name, st.ro_offset as u32),
                    ro: st.ro + content + seq![0u8],
                    ro_offset: st.ro_offset + content.len() + 1,
                    ..st
                },
            },
        }
    }
}

/// What a directive does: with operands it must be `asciiz`, anything else
/// is unknown; without operands it is a section header.
pub open spec fn spec_process_directive(st: AssemblerView, iv: InstrView) -> AssemblerView {
    match spec_directive_name(iv) {
        None => st,
        Some(name) => {
            if iv.operand1 is Some || iv.operand2 is Some || iv.operand3 is Some {
                if name == spec_asciiz_name() {
                    spec_handle_asciiz(st, iv)
                } else {
                    AssemblerView {
                        errors: st.errors.push(
                            AssemblerErrorView::UnknownDirectiveFound { directive: name },
                        ),
                        ..st
                    }
                }
            } else {
                spec_process_section_header(st, name)
            }
        },
    }
}

/// One first-phase step: a labelled instruction needs an open section (else
/// the label is declared, or rejected); a directive is processed; the
/// instruction counter advances.
pub open spec fn spec_phase1_step(st: AssemblerView, iv: InstrView) -> AssemblerView {
    let st1 = if spec_is_label(iv) {
        if st.current_section is Some {
            spec_process_label_declaration(st, iv)
        } else {
            AssemblerView {
                errors: st.errors.push(
                    AssemblerErrorView::NoSegmentDeclarationFound {
                        instruction: st.current_instruction as u32,
                    },
                ),
                ..st
            }
        }
    } else {
        st
    };
    let st2 = if iv.directive is Some {
        spec_process_directive(st1, iv)
    } else {
        st1
    };
    AssemblerView { current_instruction: st2.current_instruction + 1, ..st2 }
}

/// The first phase folded over a run of instructions.
pub open spec fn spec_phase1_steps(st: AssemblerView, ivs: Seq<InstrView>) -> AssemblerView
    decreases ivs.len(),
{
    if ivs.len() == 0 {
        st
    } else {
        spec_phase1_steps(spec_phase1_step(st, ivs[0]), ivs.drop_first())
    }
}

/// The whole first phase: the fold over the program, then the move to the
/// second phase.
pub open spec fn spec_phase1(st: AssemblerView, ivs: Seq<InstrView>) -> AssemblerView {
    AssemblerView { phase: AssemblerPhase::Second, ..spec_phase1_steps(st, ivs) }
}

/// The read-only bytes an instruction may lay down: the string's length and
/// its terminating zero, when the instruction carries a string constant.
pub open spec fn spec_asciiz_cost(iv: InstrView) -> int {
    match spec_string_constant(iv) {
        Some(content) => content.len() as int + 1,
        None => 0,
    }
}

/// The read-only bytes a run of instructions may lay down, in all.
pub open spec fn spec_total_asciiz(ivs: Seq<InstrView>) -> int
    decreases ivs.len(),
{
    if ivs.len() == 0 {
        0
    } else {
        spec_asciiz_cost(ivs[0]) + spec_total_asciiz(ivs.drop_first())
    }
}

pub proof fn lemma_total_asciiz_nonneg(ivs: Seq<InstrView>)
    ensures
        spec_total_asciiz(ivs) >= 0,
    decreases ivs.len(),
{
    if ivs.len() > 0 {
        lemma_total_asciiz_nonneg(ivs.drop_first());
    }
}

/// One first-phase step grows the read-only cursor by at most the
/// instruction's string cost, advances the counter by one, and keeps the
/// phase.
pub proof fn lemma_phase1_step_shape(st: AssemblerView, iv: InstrView)
    ensures
        spec_phase1_step(st, iv).ro_offset <= st.ro_offset + spec_asciiz_cost(iv),
        st.ro_offset <= spec_phase1_step(st, iv).ro_offset,
        spec_phase1_step(st, iv).current_instruction == st.current_instruction + 1,
        spec_phase1_step(st, iv).phase == st.phase,
        spec_phase1_step(st, iv).bytecode == st.bytecode,
{
}

/// One second-phase step over one instruction: an opcode-bearing one emits
/// its bytes against the current symbol table; a directive is re-processed
/// for its side effects; the counter advances.
pub open spec fn spec_phase2_steps(st: AssemblerView, ivs: Seq<InstrView>, acc: Seq<u8>) -> (
    AssemblerView,
    Seq<u8>,
)
    decreases ivs.len(),
{
    if ivs.len() == 0 {
        (st, acc)
    } else {
        let iv = ivs[0];
        let acc1 = if iv.opcode is Some {
            acc + spec_instruction_bytes(iv, st.symbols)
        } else {
            acc
        };
        let st1 = if iv.directive is Some {
            spec_process_directive(st, iv)
        } else {
            st
        };
        spec_phase2_steps(
            AssemblerView { current_instruction: st1.current_instruction + 1, ..st1 },
            ivs.drop_first(),
            acc1,
        )
    }
}

/// The whole second phase: the counter is reset, then the fold emits the
/// code bytes.
pub open spec fn spec_phase2(st: AssemblerView, ivs: Seq<InstrView>) -> (AssemblerView, Seq<u8>) {
    spec_phase2_steps(AssemblerView { current_instruction: 0, ..st }, ivs, Seq::empty())
}

/// In the second phase no step touches the read-only segment, its cursor,
/// or the symbol table.
pub proof fn lemma_phase2_step_keeps_data(st: AssemblerView, iv: InstrView)
    requires
        st.phase == AssemblerPhase::Second,
    ensures
        ({
            let st1 = if iv.directive is Some {
                spec_process_directive(st, iv)
            } else {
                st
            };
            st1.ro == st.ro && st1.ro_offset == st.ro_offset && st1.symbols == st.symbols
                && st1.phase == st.phase && st1.bytecode == st.bytecode
        }),
{
}

/// Whether the recorded sections hold at least one data section.
pub open spec fn spec_has_data_section(sections: Seq<AssemblerSection>) -> bool {
    exists|i: int| 0 <= i < sections.len() && sections[i] is Data
}

/// Whether the recorded sections hold at least one code section.
pub open spec fn spec_has_code_section(sections: Seq<AssemblerSection>) -> bool {
    exists|i: int| 0 <= i < sections.len() && sections[i] is Code
}

/// The little-endian bytes of a 32-bit value.
pub open spec fn spec_le32_bytes(v: int) -> Seq<u8> {
    seq![
        (v % 256) as u8,
        ((v / 256) % 256) as u8,
        ((v / 65536) % 256) as u8,
        ((v / 16777216) % 256) as u8,
    ]
}

/// The full image header: the magic prefix, zero padding up to the header
/// length, then the code-start offset — the length of the read-only
/// segment — as a little-endian 32-bit value.
pub open spec fn spec_pie_header(ro_len: int) -> Seq<u8> {
    spec_pie_prefix() + Seq::new((PIE_HEADER_LENGTH - 4) as nat, |i: int| 0u8) + spec_le32_bytes(
        ro_len,
    )
}

/// What a whole assembly run does to the assembler and what it returns.
/// A parse failure returns the one parse error and leaves the state alone.
/// Otherwise the first phase runs, and the section check follows it
/// whatever the scan found: a program without both a data and a code
/// section records `InsufficientSections` besides the scan's own errors.
/// Error collection is not fail-fast: every structural error found this
/// way is returned together in one list. Only with no error at all does
/// the second phase emit the code, and the image is header, read-only
/// data, code.
pub open spec fn spec_assemble(st: AssemblerView, src: Seq<u8>) -> (
    AssemblerView,
    Result<Seq<u8>, Seq<AssemblerErrorView>>,
) {
    match spec_program(src) {
        Err(rem) => (st, Err(seq![AssemblerErrorView::ParseError { remainder: rem }])),
        Ok(ivs) => {
            let st1 = spec_phase1(st, ivs);
            let st2 = if !(spec_has_data_section(st1.sections) && spec_has_code_section(
                st1.sections,
            )) {
                AssemblerView {
                    errors: st1.errors.push(AssemblerErrorView::InsufficientSections),
                    ..st1
                }
            } else {
                st1
            };
            if st2.errors.len() > 0 {
                (st2, Err(st2.errors))
            } else {
                let (st3, body) = spec_phase2(st2, ivs);
                (st3, Ok(spec_pie_header(st2.ro_offset) + st2.ro + body))
            }
        },
    }
}


/// One instruction's string cost is bounded by the span its parse
/// consumed.
pub proof fn lemma_instruction_asciiz_cost(s: Seq<u8>, pos: int)
    requires
        0 <= pos <= s.len(),
    ensures
        crate::instruction_parser::spec_instruction(s, pos) matches Some((p2, iv))
            ==> spec_asciiz_cost(iv) <= p2 - pos,
{
    lemma_token_parsers_bounds(s, pos);
    let lab = spec_label_declaration(s, pos);
    let p1 = opt_pos(lab, pos);
    lemma_token_parsers_bounds(s, p1);
    match spec_opcode(s, p1) {
        Some((p2, _)) => {
            lemma_token_parsers_bounds(s, p2);
            crate::parser::lemma_operand_string_len(s, p2);
            let p3 = opt_pos(spec_operand(s, p2), p2);
            lemma_token_parsers_bounds(s, p3);
            let p4 = opt_pos(spec_operand(s, p3), p3);
            lemma_token_parsers_bounds(s, p4);
        },
        None => {},
    }
    match spec_directive_declaration(s, p1) {
        Some((p2, _)) => {
            lemma_token_parsers_bounds(s, p2);
            crate::parser::lemma_operand_string_len(s, p2);
            let p3 = opt_pos(spec_operand(s, p2), p2);
            lemma_token_parsers_bounds(s, p3);
            let p4 = opt_pos(spec_operand(s, p3), p3);
            lemma_token_parsers_bounds(s, p4);
        },
        None => {},
    }
}

/// A run of instructions costs at most the bytes it was parsed from: its
/// count and its total string cost are both bounded by the span consumed.
pub proof fn lemma_instructions_cost(s: Seq<u8>, pos: int)
    requires
        0 <= pos <= s.len(),
    ensures
        spec_total_asciiz(crate::instruction_parser::spec_instructions(s, pos).0)
            <= crate::instruction_parser::spec_instructions(s, pos).1 - pos,
        crate::instruction_parser::spec_instructions(s, pos).0.len()
            <= crate::instruction_parser::spec_instructions(s, pos).1 - pos,
    decreases s.len() - pos,
{
    crate::instruction_parser::lemma_instruction_consumes(s, pos);
    lemma_instruction_asciiz_cost(s, pos);
    match spec_instruction(s, pos) {
        Some((p2, iv)) => {
            lemma_instructions_cost(s, p2);
            let ivs = spec_instructions(s, pos).0;
            let rest = spec_instructions(s, p2).0;
            assert(ivs == seq![iv] + rest);
            assert(ivs[0] == iv);
            assert(ivs.drop_first() =~= rest);
            assert(spec_total_asciiz(ivs) == spec_asciiz_cost(iv) + spec_total_asciiz(rest));
        },
        None => {},
    }
}

/// A program parsed from a source costs at most the source's length, in
/// instructions and in read-only bytes alike.
pub proof fn lemma_program_cost(src: Seq<u8>)
    ensures
        spec_program(src) matches Ok(ivs) ==> spec_total_asciiz(ivs) <= src.len() && ivs.len()
            <= src.len(),
{
    lemma_instructions_cost(src, 0);
    crate::instruction_parser::lemma_instructions_end(src, 0);
}

/// The state of a fresh assembler: first phase, empty table, empty
/// segments, no sections, no errors.
pub open spec fn spec_fresh_assembler() -> AssemblerView {
    AssemblerView {
        phase: AssemblerPhase::First,
        symbols: Seq::<SymbolView>::empty(),
        ro: Seq::<u8>::empty(),
        bytecode: Seq::<u8>::empty(),
        ro_offset: 0,
        sections: Seq::<AssemblerSection>::empty(),
        current_section: None,
        current_instruction: 0,
        errors: Seq::<AssemblerErrorView>::empty(),
    }
}



/// Law: in the first phase, a string declaration bearing a label lays the
/// content and one terminating zero byte into the read-only segment,
/// advances the write cursor by the content's length plus one, emits no
/// code bytes — and, when the label is declared in the table, resolves
/// that symbol to exactly the cursor that stood before the content.
pub proof fn lemma_asciiz_resolves_label(st: AssemblerView, iv: InstrView)
    requires
        st.phase == AssemblerPhase::First,
        spec_string_constant(iv) is Some,
        spec_label_name(iv) is Some,
        0 <= st.ro_offset <= u32::MAX,
    ensures
        ({
            let content = spec_string_constant(iv)->Some_0;
            let name = spec_label_name(iv)->Some_0;
            let r = spec_handle_asciiz(st, iv);
            &&& r.ro == st.ro + content + seq![0u8]
            &&& r.ro_offset == st.ro_offset + content.len() + 1
            &&& r.bytecode == st.bytecode
            &&& r.symbols == spec_set_symbol_offset(st.symbols, name, st.ro_offset as u32)
            &&& spec_has_symbol(st.symbols, name) ==> spec_symbol_value(r.symbols, name)
                == Some(st.ro_offset as u32)
        }),
{
    let name = spec_label_name(iv)->Some_0;
    if spec_has_symbol(st.symbols, name) {
        crate::symbol::lemma_set_symbol_offset_value(st.symbols, name, st.ro_offset as u32);
    }
}

/// Whether an instruction is a data section header: a bare `.data`.
pub open spec fn spec_opens_data(iv: InstrView) -> bool {
    &&& spec_directive_name(iv) matches Some(name) && name == spec_data_name()
    &&& !(iv.operand1 is Some || iv.operand2 is Some || iv.operand3 is Some)
}

/// Whether an instruction is a code section header: a bare `.code`.
pub open spec fn spec_opens_code(iv: InstrView) -> bool {
    &&& spec_directive_name(iv) matches Some(name) && name == spec_code_name()
    &&& !(iv.operand1 is Some || iv.operand2 is Some || iv.operand3 is Some)
}

/// Whether an instruction opens any section: a bare directive whose name is
/// a known section name.
pub open spec fn spec_opens_section(iv: InstrView) -> bool {
    &&& spec_directive_name(iv) matches Some(name) && !(spec_section_of_name(name) is Unknown)
    &&& !(iv.operand1 is Some || iv.operand2 is Some || iv.operand3 is Some)
}

/// One first-phase step only appends to the error list.
pub proof fn lemma_phase1_step_errors_grow(st: AssemblerView, iv: InstrView)
    ensures
        spec_phase1_step(st, iv).errors.len() >= st.errors.len(),
        forall|e: int|
            0 <= e < st.errors.len() ==> spec_phase1_step(st, iv).errors[e] == st.errors[e],
{
}

/// The whole first phase only appends to the error list: every error
/// already recorded stays, in its place.
pub proof fn lemma_phase1_errors_grow(st: AssemblerView, ivs: Seq<InstrView>)
    ensures
        spec_phase1_steps(st, ivs).errors.len() >= st.errors.len(),
        forall|e: int|
            0 <= e < st.errors.len() ==> spec_phase1_steps(st, ivs).errors[e] == st.errors[e],
    decreases ivs.len(),
{
    if ivs.len() > 0 {
        lemma_phase1_step_errors_grow(st, ivs[0]);
        lemma_phase1_errors_grow(spec_phase1_step(st, ivs[0]), ivs.drop_first());
    }
}

/// Law: every program image the assembler returns begins with the magic
/// prefix, whatever the source and whatever state the assembler was in.
pub proof fn lemma_assemble_image_magic(st: AssemblerView, src: Seq<u8>)
    ensures
        spec_assemble(st, src).1 matches Ok(image) ==> image.len() >= PIE_HEADER_LENGTH + 4
            && image.subrange(0, 4) == spec_pie_prefix(),
{
    match spec_program(src) {
        Ok(ivs) => {
            let st1 = spec_phase1(st, ivs);
            match spec_assemble(st, src).1 {
                Ok(image) => {
                    assert(image == spec_pie_header(st1.ro_offset) + st1.ro + spec_phase2(
                        st1,
                        ivs,
                    ).1);
                    assert(spec_pie_header(st1.ro_offset).len() == PIE_HEADER_LENGTH + 4);
                    assert(image.subrange(0, 4) =~= spec_pie_prefix());
                },
                Err(_) => {},
            }
        },
        Err(_) => {},
    }
}

/// A first-phase step records a data (or code) section only for a bare
/// `.data` (or `.code`) directive; and it closes no section once one is
/// open.
pub proof fn lemma_phase1_step_sections(st: AssemblerView, iv: InstrView)
    ensures
        !spec_has_data_section(st.sections) && !spec_opens_data(iv) ==> !spec_has_data_section(
            spec_phase1_step(st, iv).sections,
        ),
        !spec_has_code_section(st.sections) && !spec_opens_code(iv) ==> !spec_has_code_section(
            spec_phase1_step(st, iv).sections,
        ),
        st.current_section is None && !spec_opens_section(iv) ==> spec_phase1_step(
            st,
            iv,
        ).current_section is None,
        spec_phase1_step(st, iv).current_instruction == st.current_instruction + 1,
{
    let st2 = spec_phase1_step(st, iv);
    if !spec_has_data_section(st.sections) && !spec_opens_data(iv) {
        assert forall|i: int| 0 <= i < st2.sections.len() implies !(st2.sections[i] is Data) by {
            if i < st.sections.len() {
                assert(!(st.sections[i] is Data));
            }
        }
    }
    if !spec_has_code_section(st.sections) && !spec_opens_code(iv) {
        assert forall|i: int| 0 <= i < st2.sections.len() implies !(st2.sections[i] is Code) by {
            if i < st.sections.len() {
                assert(!(st.sections[i] is Code));
            }
        }
    }
}

/// The first phase records a data (or code) section only when some
/// instruction is a bare `.data` (or `.code`) directive.
pub proof fn lemma_phase1_sections(st: AssemblerView, ivs: Seq<InstrView>)
    ensures
        !spec_has_data_section(st.sections) && (forall|i: int|
            0 <= i < ivs.len() ==> !spec_opens_data(#[trigger] ivs[i]))
            ==> !spec_has_data_section(spec_phase1_steps(st, ivs).sections),
        !spec_has_code_section(st.sections) && (forall|i: int|
            0 <= i < ivs.len() ==> !spec_opens_code(#[trigger] ivs[i]))
            ==> !spec_has_code_section(spec_phase1_steps(st, ivs).sections),
    decreases ivs.len(),
{
    if ivs.len() > 0 {
        lemma_phase1_step_sections(st, ivs[0]);
        lemma_phase1_sections(spec_phase1_step(st, ivs[0]), ivs.drop_first());
        assert(forall|i: int|
            0 <= i < ivs.drop_first().len() ==> ivs.drop_first()[i] == ivs[i + 1]);
    }
}

/// Law: a source whose program declares no data section, or no code
/// section, does not assemble: it fails, its error list is the scan's
/// errors with `InsufficientSections` appended — the scan's own findings
/// are kept, not discarded — and when the scan found no other fault the
/// one error reported is `InsufficientSections`.
pub proof fn lemma_insufficient_sections(st: AssemblerView, src: Seq<u8>)
    requires
        spec_program(src) matches Ok(ivs) ==> {
            ||| !spec_has_data_section(st.sections) && (forall|i: int|
                0 <= i < ivs.len() ==> !spec_opens_data(#[trigger] ivs[i]))
            ||| !spec_has_code_section(st.sections) && (forall|i: int|
                0 <= i < ivs.len() ==> !spec_opens_code(#[trigger] ivs[i]))
        },
    ensures
        spec_program(src) matches Ok(ivs) ==> (spec_assemble(st, src).1 matches Err(es) && es
            == spec_phase1(st, ivs).errors.push(AssemblerErrorView::InsufficientSections)
            && es.last() == AssemblerErrorView::InsufficientSections && (spec_phase1(
            st,
            ivs,
        ).errors.len() == 0 ==> es == seq![AssemblerErrorView::InsufficientSections])),
{
    match spec_program(src) {
        Ok(ivs) => {
            lemma_phase1_sections(st, ivs);
            let st1 = spec_phase1(st, ivs);
            assert(!(spec_has_data_section(st1.sections) && spec_has_code_section(st1.sections)));
            if st1.errors.len() == 0 {
                assert(st1.errors.push(AssemblerErrorView::InsufficientSections) =~= seq![
                    AssemblerErrorView::InsufficientSections,
                ]);
            }
        },
        Err(_) => {},
    }
}

/// Law: a label declared before any section directive is rejected: the
/// scan's errors hold `NoSegmentDeclarationFound` carrying exactly that
/// instruction's index.
pub proof fn lemma_label_before_section(st: AssemblerView, ivs: Seq<InstrView>, k: int)
    requires
        st.current_section is None,
        0 <= k < ivs.len(),
        spec_is_label(ivs[k]),
        forall|j: int| 0 <= j < k ==> !spec_opens_section(#[trigger] ivs[j]),
        0 <= st.current_instruction,
        st.current_instruction + k <= u32::MAX,
    ensures
        spec_phase1_steps(st, ivs).errors.contains(
            AssemblerErrorView::NoSegmentDeclarationFound {
                instruction: (st.current_instruction + k) as u32,
            },
        ),
    decreases ivs.len(),
{
    let st2 = spec_phase1_step(st, ivs[0]);
    if k == 0 {
        let err = AssemblerErrorView::NoSegmentDeclarationFound {
            instruction: st.current_instruction as u32,
        };
        assert(st2.errors[st.errors.len() as int] == err);
        lemma_phase1_errors_grow(st2, ivs.drop_first());
        assert(spec_phase1_steps(st, ivs).errors[st.errors.len() as int] == err);
        assert(spec_phase1_steps(st, ivs).errors.contains(err));
    } else {
        lemma_phase1_step_sections(st, ivs[0]);
        assert(forall|i: int|
            0 <= i < ivs.drop_first().len() ==> ivs.drop_first()[i] == ivs[i + 1]);
        lemma_label_before_section(st2, ivs.drop_first(), k - 1);
        assert(spec_phase1_steps(st, ivs) == spec_phase1_steps(st2, ivs.drop_first()));
    }
}


/// How many `NoSegmentDeclarationFound` errors a list holds.
pub open spec fn spec_count_noseg(es: Seq<AssemblerErrorView>) -> int
    decreases es.len(),
{
    if es.len() == 0 {
        0
    } else {
        spec_count_noseg(es.drop_last()) + if es.last() is NoSegmentDeclarationFound {
            1int
        } else {
            0int
        }
    }
}

/// How many instructions of a run carry a label.
pub open spec fn spec_count_labels(ivs: Seq<InstrView>) -> int
    decreases ivs.len(),
{
    if ivs.len() == 0 {
        0
    } else {
        (if spec_is_label(ivs[0]) {
            1int
        } else {
            0int
        }) + spec_count_labels(ivs.drop_first())
    }
}

/// While no section is open and none of the instructions opens one, the
/// scan adds exactly one `NoSegmentDeclarationFound` error per labelled
/// instruction.
pub proof fn lemma_noseg_count(st: AssemblerView, ivs: Seq<InstrView>)
    requires
        st.current_section is None,
        forall|j: int| 0 <= j < ivs.len() ==> !spec_opens_section(#[trigger] ivs[j]),
    ensures
        spec_count_noseg(spec_phase1_steps(st, ivs).errors) == spec_count_noseg(st.errors)
            + spec_count_labels(ivs),
    decreases ivs.len(),
{
    if ivs.len() > 0 {
        let iv = ivs[0];
        let st2 = spec_phase1_step(st, iv);
        lemma_phase1_step_sections(st, iv);
        assert(spec_count_noseg(st2.errors) == spec_count_noseg(st.errors) + (
        if spec_is_label(iv) {
            1int
        } else {
            0int
        })) by {
            let st1 = if spec_is_label(iv) {
                AssemblerView {
                    errors: st.errors.push(
                        AssemblerErrorView::NoSegmentDeclarationFound {
                            instruction: st.current_instruction as u32,
                        },
                    ),
                    ..st
                }
            } else {
                st
            };
            assert(spec_count_noseg(st1.errors) == spec_count_noseg(st.errors) + (
            if spec_is_label(iv) {
                1int
            } else {
                0int
            })) by {
                if spec_is_label(iv) {
                    assert(st1.errors.drop_last() =~= st.errors);
                }
            }
            assert(spec_count_noseg(st2.errors) == spec_count_noseg(st1.errors)) by {
                if iv.directive is Some {
                    lemma_directive_adds_no_noseg(st1, iv);
                }
            }
        }
        assert(forall|j: int|
            0 <= j < ivs.drop_first().len() ==> ivs.drop_first()[j] == ivs[j + 1]);
        lemma_noseg_count(st2, ivs.drop_first());
    }
}

/// Processing a directive never records a `NoSegmentDeclarationFound`.
proof fn lemma_directive_adds_no_noseg(st: AssemblerView, iv: InstrView)
    ensures
        spec_count_noseg(spec_process_directive(st, iv).errors) == spec_count_noseg(st.errors),
{
    let st2 = spec_process_directive(st, iv);
    if st2.errors.len() == st.errors.len() + 1 {
        assert(st2.errors.drop_last() =~= st.errors);
    } else {
        assert(st2.errors == st.errors);
    }
}

/// A run with no labelled instruction counts zero labels.
proof fn lemma_count_labels_none(ivs: Seq<InstrView>)
    requires
        forall|j: int| 0 <= j < ivs.len() ==> !spec_is_label(#[trigger] ivs[j]),
    ensures
        spec_count_labels(ivs) == 0,
    decreases ivs.len(),
{
    if ivs.len() > 0 {
        assert(forall|j: int|
            0 <= j < ivs.drop_first().len() ==> ivs.drop_first()[j] == ivs[j + 1]);
        lemma_count_labels_none(ivs.drop_first());
    }
}

/// A run whose one labelled instruction stands at `k` counts one label.
proof fn lemma_count_labels_single(ivs: Seq<InstrView>, k: int)
    requires
        0 <= k < ivs.len(),
        spec_is_label(ivs[k]),
        forall|j: int| 0 <= j < ivs.len() && j != k ==> !spec_is_label(#[trigger] ivs[j]),
    ensures
        spec_count_labels(ivs) == 1,
    decreases ivs.len(),
{
    assert(forall|j: int|
        0 <= j < ivs.drop_first().len() ==> ivs.drop_first()[j] == ivs[j + 1]);
    if k == 0 {
        lemma_count_labels_none(ivs.drop_first());
    } else {
        lemma_count_labels_single(ivs.drop_first(), k - 1);
    }
}


/// How many `NoSegmentDeclarationFound` errors of a list carry the index
/// `t`.
pub open spec fn spec_count_noseg_at(es: Seq<AssemblerErrorView>, t: u32) -> int
    decreases es.len(),
{
    if es.len() == 0 {
        0
    } else {
        spec_count_noseg_at(es.drop_last(), t) + if es.last()
            == (AssemblerErrorView::NoSegmentDeclarationFound { instruction: t }) {
            1int
        } else {
            0int
        }
    }
}

/// One first-phase step adds a `NoSegmentDeclarationFound` at index `t`
/// exactly when the instruction is labelled, no section is open, and `t`
/// is the step's own instruction counter; every other error it may add
/// carries another index or another variant.
proof fn lemma_step_noseg_at(st: AssemblerView, iv: InstrView, t: u32)
    ensures
        spec_count_noseg_at(spec_phase1_step(st, iv).errors, t) == spec_count_noseg_at(
            st.errors,
            t,
        ) + (if spec_is_label(iv) && st.current_section is None && t as int
            == st.current_instruction as u32 as int {
            1int
        } else {
            0int
        }),
{
    let st1 = if spec_is_label(iv) {
        if st.current_section is Some {
            spec_process_label_declaration(st, iv)
        } else {
            AssemblerView {
                errors: st.errors.push(
                    AssemblerErrorView::NoSegmentDeclarationFound {
                        instruction: st.current_instruction as u32,
                    },
                ),
                ..st
            }
        }
    } else {
        st
    };
    assert(spec_count_noseg_at(st1.errors, t) == spec_count_noseg_at(st.errors, t) + (
    if spec_is_label(iv) && st.current_section is None && t as int
        == st.current_instruction as u32 as int {
        1int
    } else {
        0int
    })) by {
        if st1.errors.len() == st.errors.len() + 1 {
            assert(st1.errors.drop_last() =~= st.errors);
        }
    }
    let st2 = if iv.directive is Some {
        spec_process_directive(st1, iv)
    } else {
        st1
    };
    assert(spec_count_noseg_at(st2.errors, t) == spec_count_noseg_at(st1.errors, t)) by {
        if st2.errors.len() == st1.errors.len() + 1 {
            assert(st2.errors.drop_last() =~= st1.errors);
        } else {
            assert(st2.errors == st1.errors);
        }
    }
}

/// Once the instruction counter has moved past an index, no later step can
/// add a `NoSegmentDeclarationFound` carrying it.
proof fn lemma_noseg_at_below_counter(st: AssemblerView, ivs: Seq<InstrView>, t: u32)
    requires
        (t as int) < st.current_instruction,
        0 <= st.current_instruction,
        st.current_instruction + ivs.len() <= u32::MAX,
    ensures
        spec_count_noseg_at(spec_phase1_steps(st, ivs).errors, t) == spec_count_noseg_at(
            st.errors,
            t,
        ),
    decreases ivs.len(),
{
    if ivs.len() > 0 {
        lemma_step_noseg_at(st, ivs[0], t);
        lemma_phase1_step_shape(st, ivs[0]);
        lemma_noseg_at_below_counter(spec_phase1_step(st, ivs[0]), ivs.drop_first(), t);
    }
}

/// Law: a label declared at instruction index `k` before any section
/// directive yields exactly one `NoSegmentDeclarationFound` error carrying
/// index `k` — whatever other labels, directives or faults the program
/// holds.
pub proof fn lemma_label_before_section_general(st: AssemblerView, ivs: Seq<InstrView>, k: int)
    requires
        st.current_section is None,
        spec_count_noseg_at(st.errors, (st.current_instruction + k) as u32) == 0,
        0 <= k < ivs.len(),
        spec_is_label(ivs[k]),
        forall|j: int| 0 <= j < k ==> !spec_opens_section(#[trigger] ivs[j]),
        0 <= st.current_instruction,
        st.current_instruction + ivs.len() <= u32::MAX,
    ensures
        spec_count_noseg_at(
            spec_phase1_steps(st, ivs).errors,
            (st.current_instruction + k) as u32,
        ) == 1,
    decreases ivs.len(),
{
    let t = (st.current_instruction + k) as u32;
    let st2 = spec_phase1_step(st, ivs[0]);
    lemma_step_noseg_at(st, ivs[0], t);
    lemma_phase1_step_shape(st, ivs[0]);
    assert(forall|i: int| 0 <= i < ivs.drop_first().len() ==> ivs.drop_first()[i] == ivs[i + 1]);
    if k == 0 {
        assert(spec_count_noseg_at(st2.errors, t) == 1);
        lemma_noseg_at_below_counter(st2, ivs.drop_first(), t);
    } else {
        lemma_phase1_step_sections(st, ivs[0]);
        assert(spec_count_noseg_at(st2.errors, t) == 0);
        lemma_label_before_section_general(st2, ivs.drop_first(), k - 1);
    }
}


/// Law: a source whose program declares a label at instruction index `k`
/// before any section directive does not assemble, and the error list it
/// returns holds exactly one `NoSegmentDeclarationFound` carrying index
/// `k` — whatever else the program holds.
pub proof fn lemma_assemble_label_before_section(st: AssemblerView, src: Seq<u8>, k: int)
    requires
        st.current_section is None,
        st.current_instruction == 0,
        spec_count_noseg_at(st.errors, k as u32) == 0,
        spec_program(src) matches Ok(ivs) && {
            &&& 0 <= k < ivs.len()
            &&& spec_is_label(ivs[k])
            &&& (forall|j: int| 0 <= j < k ==> !spec_opens_section(#[trigger] ivs[j]))
            &&& ivs.len() <= u32::MAX
        },
    ensures
        spec_assemble(st, src).1 matches Err(es) && spec_count_noseg_at(es, k as u32) == 1,
{
    let ivs = spec_program(src)->Ok_0;
    lemma_label_before_section_general(st, ivs, k);
    let st1 = spec_phase1(st, ivs);
    assert(spec_count_noseg_at(st1.errors, k as u32) == 1);
    let st2 = if !(spec_has_data_section(st1.sections) && spec_has_code_section(st1.sections)) {
        AssemblerView {
            errors: st1.errors.push(AssemblerErrorView::InsufficientSections),
            ..st1
        }
    } else {
        st1
    };
    assert(spec_count_noseg_at(st2.errors, k as u32) == 1) by {
        if st2.errors.len() == st1.errors.len() + 1 {
            assert(st2.errors.drop_last() =~= st1.errors);
        }
    }
    assert(st2.errors.len() > 0);
}

/// Law: a program whose one labelled instruction comes before any section
/// directive scans to exactly one `NoSegmentDeclarationFound` error, and
/// that error carries the labelled instruction's index.
pub proof fn lemma_label_before_section_exactly_one(st: AssemblerView, ivs: Seq<InstrView>, k: int)
    requires
        st.current_section is None,
        st.errors == Seq::<AssemblerErrorView>::empty(),
        0 <= k < ivs.len(),
        spec_is_label(ivs[k]),
        forall|j: int| 0 <= j < ivs.len() && j != k ==> !spec_is_label(#[trigger] ivs[j]),
        forall|j: int| 0 <= j < ivs.len() ==> !spec_opens_section(#[trigger] ivs[j]),
        0 <= st.current_instruction,
        st.current_instruction + k <= u32::MAX,
    ensures
        spec_count_noseg(spec_phase1_steps(st, ivs).errors) == 1,
        spec_phase1_steps(st, ivs).errors.contains(
            AssemblerErrorView::NoSegmentDeclarationFound {
                instruction: (st.current_instruction + k) as u32,
            },
        ),
{
    lemma_label_before_section(st, ivs, k);
    lemma_noseg_count(st, ivs);
    lemma_count_labels_single(ivs, k);
}


/// Whether no two symbols of a table bear the same name.
pub open spec fn spec_symbols_unique(syms: Seq<SymbolView>) -> bool {
    forall|i: int, j: int|
        0 <= i < j < syms.len() ==> (#[trigger] syms[i]).name != (#[trigger] syms[j]).name
}

/// One first-phase step keeps symbol names unique: a name enters the table
/// only when it is not yet there, and resolving a string label's offset
/// renames nothing.
pub proof fn lemma_phase1_step_unique_names(st: AssemblerView, iv: InstrView)
    requires
        spec_symbols_unique(st.symbols),
    ensures
        spec_symbols_unique(spec_phase1_step(st, iv).symbols),
{
    let st1 = if spec_is_label(iv) && st.current_section is Some {
        spec_process_label_declaration(st, iv)
    } else {
        st
    };
    assert(spec_symbols_unique(st1.symbols)) by {
        match spec_label_name(iv) {
            Some(name) => {
                if !spec_has_symbol(st.symbols, name) {
                    assert(forall|i: int|
                        0 <= i < st.symbols.len() ==> (#[trigger] st.symbols[i]).name != name);
                }
            },
            None => {},
        }
    }
    let st2 = if iv.directive is Some {
        spec_process_directive(st1, iv)
    } else {
        st1
    };
    assert(spec_symbols_unique(st2.symbols)) by {
        match spec_label_name(iv) {
            Some(name) => {
                crate::symbol::lemma_set_symbol_offset_shape(
                    st1.symbols,
                    name,
                    st1.ro_offset as u32,
                );
            },
            None => {},
        }
    }
}

/// Law: the symbol table the first phase builds holds each name once.
pub proof fn lemma_phase1_names_unique(st: AssemblerView, ivs: Seq<InstrView>)
    requires
        spec_symbols_unique(st.symbols),
    ensures
        spec_symbols_unique(spec_phase1_steps(st, ivs).symbols),
    decreases ivs.len(),
{
    if ivs.len() > 0 {
        lemma_phase1_step_unique_names(st, ivs[0]);
        lemma_phase1_names_unique(spec_phase1_step(st, ivs[0]), ivs.drop_first());
    }
}

impl Assembler {
    /// A fresh assembler: first phase, empty table, empty segments, no
    /// sections, no errors.
    pub fn new() -> (r: Assembler)
        ensures
            r@ == spec_fresh_assembler(),
    {
        let r = Assembler {
            phase: AssemblerPhase::First,
            symbols: SymbolTable::new(),
            ro: Vec::new(),
            bytecode: Vec::new(),
            ro_offset: 0,
            sections: Vec::new(),
            current_section: None,
            current_instruction: 0,
            errors: Vec::new(),
        };
        proof {
            assert(r@.ro =~= Seq::<u8>::empty());
            assert(r@.bytecode =~= Seq::<u8>::empty());
            assert(r@.sections =~= Seq::<AssemblerSection>::empty());
            assert(r@.errors =~= Seq::<AssemblerErrorView>::empty());
        }
        r
    }

    /// Declares the instruction's label in the symbol table, unresolved;
    /// rejects a duplicate name, and a label token without a name.
    fn process_label_declaration(&mut self, i: &AssemblerInstruction)
        ensures
            final (self)@ == spec_process_label_declaration(old(self)@, i@),
    {
        let ghost pre = self@;
        match i.get_label_name() {
            None => {
                self.errors.push(
                    AssemblerError::StringConstantDeclaredWithoutLabel {
                        instruction: self.current_instruction,
                    },
                );
                proof {
                    assert(self@.errors =~= pre.errors.push(
                        AssemblerErrorView::StringConstantDeclaredWithoutLabel {
                            instruction: pre.current_instruction as u32,
                        },
                    ));
                    assert(self@ == spec_process_label_declaration(pre, i@));
                }
            },
            Some(name) => {
                if self.symbols.has_symbol(name.as_slice()) {
                    self.errors.push(AssemblerError::SymbolAlreadyDeclared);
                    proof {
                        assert(self@.errors =~= pre.errors.push(
                            AssemblerErrorView::SymbolAlreadyDeclared,
                        ));
                        assert(self@ == spec_process_label_declaration(pre, i@));
                    }
                } else {
                    let symbol = Symbol::new(name, SymbolType::Label);
                    self.symbols.add_symbol(symbol);
                    proof {
                        assert(self@ == spec_process_label_declaration(pre, i@));
                    }
                }
            },
        }
    }

    /// Records a section header and opens that section; an unknown section
    /// name is rejected.
    fn process_section_header(&mut self, header_name: &[u8])
        ensures
            final (self)@ == spec_process_section_header(old(self)@, header_name@),
    {
        let ghost pre = self@;
        let n = header_name.len();
        let new_section: AssemblerSection = if n == 4 && header_name[0] == 100 && header_name[1]
            == 97 && header_name[2] == 116 && header_name[3] == 97 {
            // data
            proof {
                assert(header_name@ =~= spec_data_name());
            }
            AssemblerSection::Data { starting_instruction: None }
        } else if n == 4 && header_name[0] == 99 && header_name[1] == 111 && header_name[2] == 100
            && header_name[3] == 101 {
            // code
            proof {
                assert(header_name@ =~= spec_code_name());
            }
            AssemblerSection::Code { starting_instruction: None }
        } else {
            proof {
                assert(header_name@ != spec_data_name() && header_name@ != spec_code_name());
            }
            AssemblerSection::Unknown
        };
        match new_section {
            AssemblerSection::Unknown => {
                let directive = vstd::slice::slice_to_vec(header_name);
                self.errors.push(AssemblerError::UnknownDirectiveFound { directive });
                proof {
                    assert(self@.errors =~= pre.errors.push(
                        AssemblerErrorView::UnknownDirectiveFound { directive: header_name@ },
                    ));
                    assert(self@ == spec_process_section_header(pre, header_name@));
                }
            },
            _ => {
                self.sections.push(new_section);
                self.current_section = Some(new_section);
                proof {
                    assert(self@.sections =~= pre.sections.push(
                        spec_section_of_name(header_name@),
                    ));
                    assert(self@ == spec_process_section_header(pre, header_name@));
                }
            },
        }
    }

    /// Handles a null-terminated string declaration, `label: .asciiz '...'`,
    /// in the first phase: resolves the label to the read-only cursor, then
    /// lays down the content bytes and one zero byte.
    fn handle_asciiz(&mut self, i: &AssemblerInstruction)
        requires
            old(self)@.phase == AssemblerPhase::First ==> old(self)@.ro_offset + spec_asciiz_cost(
                i@,
            ) <= u32::MAX,
        ensures
            final (self)@ == spec_handle_asciiz(old(self)@, i@),
    {
        let ghost pre = self@;
        match self.phase {
            AssemblerPhase::First => {},
            AssemblerPhase::Second => {
                return ;
            },
        }
        match i.get_string_constant() {
            Some(content) => {
                match i.get_label_name() {
                    Some(name) => {
                        self.symbols.set_symbol_offset(name.as_slice(), self.ro_offset);
                    },
                    None => {
                        self.errors.push(
                            AssemblerError::StringConstantDeclaredWithoutLabel {
                                instruction: self.current_instruction,
                            },
                        );
                        proof {
                            assert(self@.errors =~= pre.errors.push(
                                AssemblerErrorView::StringConstantDeclaredWithoutLabel {
                                    instruction: pre.current_instruction as u32,
                                },
                            ));
                            assert(self@ == spec_handle_asciiz(pre, i@));
                        }
                        return ;
                    },
                };
                let mut content_bytes = content;
                let added = content_bytes.len();
                self.ro.append(&mut content_bytes);
                self.ro.push(0);
                self.ro_offset = self.ro_offset + (added as u32) + 1;
                proof {
                    assert(self@.ro =~= pre.ro + spec_string_constant(i@)->Some_0 + seq![0u8]);
                    assert(self@ == spec_handle_asciiz(pre, i@));
                }
            },
            None => {
                proof {
                    assert(self@ == spec_handle_asciiz(pre, i@));
                }
            },
        }
    }

    /// Processes one directive: `asciiz` with operands lays down a string;
    /// any other name with operands is unknown; a bare directive is a
    /// section header.
    fn process_directive(&mut self, i: &AssemblerInstruction)
        requires
            old(self)@.phase == AssemblerPhase::First ==> old(self)@.ro_offset + spec_asciiz_cost(
                i@,
            ) <= u32::MAX,
        ensures
            final (self)@ == spec_process_directive(old(self)@, i@),
    {
        let ghost pre = self@;
        let directive_name = match i.get_directive_name() {
            Some(name) => name,
            None => {
                return ;
            },
        };
        if i.has_operands() {
            let dn = directive_name.as_slice();
            if dn.len() == 6 && dn[0] == 97 && dn[1] == 115 && dn[2] == 99 && dn[3] == 105 && dn[4]
                == 105 && dn[5] == 122 {
                // asciiz
                proof {
                    assert(dn@ =~= spec_asciiz_name());
                }
                self.handle_asciiz(i);
            } else {
                proof {
                    assert(dn@ != spec_asciiz_name());
                }
                self.errors.push(
                    AssemblerError::UnknownDirectiveFound { directive: directive_name },
                );
                proof {
                    assert(self@.errors =~= pre.errors.push(
                        AssemblerErrorView::UnknownDirectiveFound {
                            directive: spec_directive_name(i@)->Some_0,
                        },
                    ));
                    assert(self@ == spec_process_directive(pre, i@));
                }
            }
        } else {
            self.process_section_header(directive_name.as_slice());
        }
    }

    /// The first phase: walks the instructions in order, declaring labels
    /// (which need an open section), processing directives, and counting
    /// instructions; then moves to the second phase.
    pub fn process_first_phase(&mut self, p: &Program)
        requires
            old(self)@.ro_offset + spec_total_asciiz(p@) <= u32::MAX,
            old(self)@.current_instruction + p@.len() <= u32::MAX,
        ensures
            final (self)@ == spec_phase1(old(self)@, p@),
    {
        let ghost full = p@;
        let ghost st0 = self@;
        let n = p.instructions.len();
        let mut idx: usize = 0;
        proof {
            assert(full.skip(0) =~= full);
        }
        while idx < n
            invariant
                idx <= n,
                n == p.instructions.len(),
                n == full.len(),
                full == p@,
                spec_phase1_steps(st0, full) == spec_phase1_steps(self@, full.skip(idx as int)),
                self@.ro_offset + spec_total_asciiz(full.skip(idx as int)) <= u32::MAX,
                self@.current_instruction + (n - idx) <= u32::MAX,
                self@.phase == st0.phase,
            decreases n - idx,
        {
            let ghost cur = self@;
            let ghost iv = full[idx as int];
            proof {
                assert(full.skip(idx as int)[0] == iv);
                assert(full.skip(idx as int).drop_first() =~= full.skip(idx as int + 1));
                lemma_total_asciiz_nonneg(full.skip(idx as int + 1));
                lemma_phase1_step_shape(cur, iv);
                assert(p@[idx as int] == p.instructions@[idx as int]@);
            }
            let i = self.instructions_at(p, idx);
            proof {
                assert(i@ == iv);
            }
            if i.is_label() {
                if self.current_section.is_some() {
                    self.process_label_declaration(i);
                } else {
                    self.errors.push(
                        AssemblerError::NoSegmentDeclarationFound {
                            instruction: self.current_instruction,
                        },
                    );
                    proof {
                        assert(self@.errors =~= cur.errors.push(
                            AssemblerErrorView::NoSegmentDeclarationFound {
                                instruction: cur.current_instruction as u32,
                            },
                        ));
                    }
                }
            }
            if i.is_directive() {
                self.process_directive(i);
            }
            self.current_instruction = self.current_instruction + 1;
            proof {
                assert(self@ == spec_phase1_step(cur, iv));
            }
            idx = idx + 1;
        }
        proof {
            assert(full.skip(n as int).len() == 0);
        }
        self.phase = AssemblerPhase::Second;
    }

    /// A borrow of one instruction of the program.
    fn instructions_at<'a>(&self, p: &'a Program, idx: usize) -> (r: &'a AssemblerInstruction)
        requires
            idx < p.instructions.len(),
        ensures
            r@ == p@[idx as int],
    {
        proof {
            assert(p@[idx as int] == p.instructions@[idx as int]@);
        }
        &p.instructions[idx]
    }

    /// The second phase: re-walks the instructions, emitting each
    /// opcode-bearing instruction's bytes against the symbol table and
    /// re-processing directives for their side effects, and returns the
    /// emitted code.
    pub fn process_second_phase(&mut self, p: &Program) -> (r: Vec<u8>)
        requires
            old(self)@.phase == AssemblerPhase::Second,
            p@.len() <= u32::MAX,
            forall|i: int|
                0 <= i < p@.len() ==> ((#[trigger] p@[i].opcode) matches Some(t) ==> t is Op),
        ensures
            (final (self)@, r@) == spec_phase2(old(self)@, p@),
    {
        let ghost full = p@;
        self.current_instruction = 0;
        let ghost st0 = self@;
        let mut out: Vec<u8> = Vec::new();
        let n = p.instructions.len();
        let mut idx: usize = 0;
        proof {
            assert(full.skip(0) =~= full);
            assert(out@ =~= Seq::<u8>::empty());
        }
        while idx < n
            invariant
                idx <= n,
                n == p.instructions.len(),
                n == full.len(),
                full == p@,
                forall|i: int|
                    0 <= i < full.len() ==> ((#[trigger] full[i].opcode) matches Some(t) ==> t
                        is Op),
                spec_phase2_steps(st0, full, Seq::empty()) == spec_phase2_steps(
                    self@,
                    full.skip(idx as int),
                    out@,
                ),
                self@.current_instruction + (n - idx) <= u32::MAX,
                self@.phase == AssemblerPhase::Second,
                self@.ro_offset == st0.ro_offset,
            decreases n - idx,
        {
            let ghost cur = self@;
            let ghost iv = full[idx as int];
            proof {
                assert(full.skip(idx as int)[0] == iv);
                assert(full.skip(idx as int).drop_first() =~= full.skip(idx as int + 1));
                lemma_phase2_step_keeps_data(cur, iv);
            }
            let i = self.instructions_at(p, idx);
            proof {
                assert(i@ == iv);
            }
            if i.is_opcode() {
                let mut bytes = i.to_bytes(&self.symbols);
                let ghost outpre = out@;
                out.append(&mut bytes);
                proof {
                    assert(out@ =~= outpre + spec_instruction_bytes(iv, cur.symbols));
                }
            }
            if i.is_directive() {
                proof {
                    assert(spec_asciiz_cost(iv) >= 0);
                }
                self.process_directive(i);
            }
            self.current_instruction = self.current_instruction + 1;
            idx = idx + 1;
        }
        proof {
            assert(full.skip(n as int).len() == 0);
        }
        out
    }

    /// The image header: the magic prefix, zero padding up to the header
    /// length, and the code-start offset — the read-only cursor — as a
    /// little-endian 32-bit value.
    pub fn write_pie_header(&self) -> (r: Vec<u8>)
        ensures
            r@ == spec_pie_header(self@.ro_offset),
    {
        let mut header: Vec<u8> = Vec::new();
        header.push(45);
        header.push(50);
        header.push(49);
        header.push(45);
        while header.len() < PIE_HEADER_LENGTH
            invariant
                4 <= header.len() <= PIE_HEADER_LENGTH,
                header@.subrange(0, 4) =~= spec_pie_prefix(),
                forall|j: int| 4 <= j < header@.len() ==> header@[j] == 0,
            decreases PIE_HEADER_LENGTH - header.len(),
        {
            header.push(0);
        }
        let off = self.ro_offset;
        header.push((off % 256) as u8);
        header.push(((off / 256) % 256) as u8);
        header.push(((off / 65536) % 256) as u8);
        header.push(((off / 16777216) % 256) as u8);
        proof {
            assert(header@ =~= spec_pie_header(self@.ro_offset));
        }
        header
    }

    /// Assembles a source text into a program image. A parse failure
    /// returns the one parse error at once; nothing else short-circuits.
    /// The structural errors of the scan and of the section check — a
    /// program lacking a data or a code section earns
    /// `InsufficientSections` besides whatever the scan found — are
    /// accumulated and returned together in one list. On success the image
    /// is the header, the read-only data, and the code. The precondition
    /// only keeps the assembler's 32-bit cursor and counter in machine
    /// range; it holds for any source shorter than their range with a
    /// fresh assembler, and `REPL::load_file` shows the check a caller
    /// makes.
    pub fn assemble(&mut self, raw: &[u8]) -> (r: Result<Vec<u8>, Vec<AssemblerError>>)
        requires
            spec_program(raw@) matches Ok(ivs) ==> {
                &&& old(self)@.ro_offset + spec_total_asciiz(ivs) <= u32::MAX
                &&& old(self)@.current_instruction + ivs.len() <= u32::MAX
            },
        ensures
            ({
                let (st, res) = spec_assemble(old(self)@, raw@);
                final (self)@ == st && match (r, res) {
                    (Ok(image), Ok(bytes)) => image@ == bytes,
                    (Err(es), Err(evs)) => errors_view(es@) == evs,
                    _ => false,
                }
            }),
    {
        let parsed = program(raw);
        match parsed {
            Err(e) => {
                let mut es: Vec<AssemblerError> = Vec::new();
                es.push(e);
                proof {
                    let rem = spec_program(raw@)->Err_0;
                    assert(errors_view(es@) =~= seq![
                        AssemblerErrorView::ParseError { remainder: rem },
                    ]);
                }
                Err(es)
            },
            Ok(p) => {
                proof {
                    crate::instruction_parser::lemma_program_instructions_wf(raw@);
                }
                self.process_first_phase(&p);
                let mut has_data = false;
                let mut has_code = false;
                let mut si: usize = 0;
                while si < self.sections.len()
                    invariant
                        si <= self.sections.len(),
                        has_data == (exists|i: int|
                            0 <= i < si && self.sections@[i] is Data),
                        has_code == (exists|i: int|
                            0 <= i < si && self.sections@[i] is Code),
                    decreases self.sections.len() - si,
                {
                    match self.sections[si] {
                        AssemblerSection::Data { .. } => {
                            has_data = true;
                        },
                        AssemblerSection::Code { .. } => {
                            has_code = true;
                        },
                        AssemblerSection::Unknown => {},
                    }
                    si = si + 1;
                }
                proof {
                    assert(has_data == spec_has_data_section(self@.sections));
                    assert(has_code == spec_has_code_section(self@.sections));
                }
                if !(has_data && has_code) {
                    let ghost pre = self@;
                    self.errors.push(AssemblerError::InsufficientSections);
                    proof {
                        assert(self@.errors =~= pre.errors.push(
                            AssemblerErrorView::InsufficientSections,
                        ));
                    }
                }
                if self.errors.len() > 0 {
                    return Err(crate::errors::clone_errors(&self.errors));
                }
                let mut image = self.write_pie_header();
                let mut ro_copy = vstd::slice::slice_to_vec(self.ro.as_slice());
                let mut body = self.process_second_phase(&p);
                image.append(&mut ro_copy);
                image.append(&mut body);
                proof {
                    let ivs = spec_program(raw@)->Ok_0;
                    let st1 = spec_phase1(old(self)@, ivs);
                    let (st3, bytes) = spec_phase2(st1, ivs);
                    assert(image@ =~= spec_pie_header(st1.ro_offset) + st1.ro + bytes);
                }
                Ok(image)
            },
        }
    }
}

} // verus!

//! Instruction records, the instruction- and program-level parsers, and the
//! encoding of instructions into bytes.
use vstd::prelude::*;

use crate::errors::AssemblerError;
use crate::instruction::spec_opcode_byte;
use crate::parser::{
    directive_declaration, label_declaration, opcode, operand, skip_ws, spec_directive_declaration,
    spec_label_declaration, spec_opcode, spec_operand, ws_end,
};
use crate::symbol::{spec_symbol_value, SymbolTable, SymbolView};
use crate::token::{Token, TokenView};

verus! {

/// One parsed instruction: an optional label, then either an opcode or a
/// directive, and up to three operands.
#[derive(Debug)]
pub struct AssemblerInstruction {
    pub opcode: Option<Token>,
    pub label: Option<Token>,
    pub directive: Option<Token>,
    pub operand1: Option<Token>,
    pub operand2: Option<Token>,
    pub operand3: Option<Token>,
}

/// The view of an instruction record.
pub ghost struct InstrView {
    pub opcode: Option<TokenView>,
    pub label: Option<TokenView>,
    pub directive: Option<TokenView>,
    pub operand1: Option<TokenView>,
    pub operand2: Option<TokenView>,
    pub operand3: Option<TokenView>,
}

/// The view of an optional token.
pub open spec fn opt_view(o: Option<Token>) -> Option<TokenView> {
    match o {
        Some(t) => Some(t@),
        None => None,
    }
}

impl View for AssemblerInstruction {
    type V = InstrView;

    open spec fn view(&self) -> InstrView {
        InstrView {
            opcode: opt_view(self.opcode),
            label: opt_view(self.label),
            directive: opt_view(self.directive),
            operand1: opt_view(self.operand1),
            operand2: opt_view(self.operand2),
            operand3: opt_view(self.operand3),
        }
    }
}

/// Whether two optional tokens hold equal tokens.
fn opt_token_eq(a: &Option<Token>, b: &Option<Token>) -> (r: bool)
    ensures
        r == (opt_view(*a) == opt_view(*b)),
{
    match (a, b) {
        (Some(x), Some(y)) => x == y,
        (None, None) => true,
        _ => false,
    }
}

impl PartialEq for AssemblerInstruction {
    /// Two instruction records are equal when all six parts are equal.
    fn eq(&self, other: &AssemblerInstruction) -> (r: bool) {
        opt_token_eq(&self.opcode, &other.opcode) && opt_token_eq(&self.label, &other.label)
            && opt_token_eq(&self.directive, &other.directive) && opt_token_eq(
            &self.operand1,
            &other.operand1,
        ) && opt_token_eq(&self.operand2, &other.operand2) && opt_token_eq(
            &self.operand3,
            &other.operand3,
        )
    }
}

impl vstd::std_specs::cmp::PartialEqSpecImpl for AssemblerInstruction {
    open spec fn obeys_eq_spec() -> bool {
        true
    }

    open spec fn eq_spec(&self, other: &AssemblerInstruction) -> bool {
        self@ == other@
    }
}

/// The view of an executable instruction-parser result.
pub open spec fn opt_instr_view(r: Option<(usize, AssemblerInstruction)>) -> Option<
    (int, InstrView),
> {
    match r {
        Some((p, i)) => Some((p as int, i@)),
        None => None,
    }
}

/// The position after an optional parse: where the parse ended when it
/// succeeded, the starting position when it did not.
pub open spec fn opt_pos(r: Option<(int, TokenView)>, pos: int) -> int {
    match r {
        Some((p, _)) => p,
        None => pos,
    }
}

/// The token of an optional parse.
pub open spec fn opt_tok(r: Option<(int, TokenView)>) -> Option<TokenView> {
    match r {
        Some((_, t)) => Some(t),
        None => None,
    }
}

/// Where an opcode-bearing instruction parses and what it yields: an
/// optional label declaration, an opcode, and up to three operands.
pub open spec fn spec_instruction_combined(s: Seq<u8>, pos: int) -> Option<(int, InstrView)> {
    let lab = spec_label_declaration(s, pos);
    let p1 = opt_pos(lab, pos);
    match spec_opcode(s, p1) {
        Some((p2, op)) => {
            let o1 = spec_operand(s, p2);
            let p3 = opt_pos(o1, p2);
            let o2 = spec_operand(s, p3);
            let p4 = opt_pos(o2, p3);
            let o3 = spec_operand(s, p4);
            let p5 = opt_pos(o3, p4);
            Some(
                (
                    p5,
                    InstrView {
                        opcode: Some(op),
                        label: opt_tok(lab),
                        directive: None,
                        operand1: opt_tok(o1),
                        operand2: opt_tok(o2),
                        operand3: opt_tok(o3),
                    },
                ),
            )
        },
        None => None,
    }
}

/// Where a directive instruction parses and what it yields: an optional
/// label declaration, a directive name, and up to three operands.
pub open spec fn spec_directive_combined(s: Seq<u8>, pos: int) -> Option<(int, InstrView)> {
    let lab = spec_label_declaration(s, pos);
    let p1 = opt_pos(lab, pos);
    match spec_directive_declaration(s, p1) {
        Some((p2, d)) => {
            let o1 = spec_operand(s, p2);
            let p3 = opt_pos(o1, p2);
            let o2 = spec_operand(s, p3);
            let p4 = opt_pos(o2, p3);
            let o3 = spec_operand(s, p4);
            let p5 = opt_pos(o3, p4);
            Some(
                (
                    p5,
                    InstrView {
                        opcode: None,
                        label: opt_tok(lab),
                        directive: Some(d),
                        operand1: opt_tok(o1),
                        operand2: opt_tok(o2),
                        operand3: opt_tok(o3),
                    },
                ),
            )
        },
        None => None,
    }
}

/// Where one instruction parses: as an opcode-bearing instruction if that
/// matches, else as a directive instruction.
pub open spec fn spec_instruction(s: Seq<u8>, pos: int) -> Option<(int, InstrView)> {
    if spec_instruction_combined(s, pos) is Some {
        spec_instruction_combined(s, pos)
    } else {
        spec_directive_combined(s, pos)
    }
}

/// A successful instruction parse consumes at least one byte and stays
/// within the input.
pub proof fn lemma_instruction_consumes(s: Seq<u8>, pos: int)
    requires
        0 <= pos <= s.len(),
    ensures
        spec_instruction_combined(s, pos) matches Some((p2, _)) ==> pos < p2 <= s.len(),
        spec_directive_combined(s, pos) matches Some((p2, _)) ==> pos < p2 <= s.len(),
        spec_instruction(s, pos) matches Some((p2, _)) ==> pos < p2 <= s.len(),
{
    crate::parser::lemma_token_parsers_bounds(s, pos);
    let lab = spec_label_declaration(s, pos);
    let p1 = opt_pos(lab, pos);
    crate::parser::lemma_token_parsers_bounds(s, p1);
    match spec_opcode(s, p1) {
        Some((p2, _)) => {
            crate::parser::lemma_token_parsers_bounds(s, p2);
            let p3 = opt_pos(spec_operand(s, p2), p2);
            crate::parser::lemma_token_parsers_bounds(s, p3);
            let p4 = opt_pos(spec_operand(s, p3), p3);
            crate::parser::lemma_token_parsers_bounds(s, p4);
        },
        None => {},
    }
    match spec_directive_declaration(s, p1) {
        Some((p2, _)) => {
            crate::parser::lemma_token_parsers_bounds(s, p2);
            let p3 = opt_pos(spec_operand(s, p2), p2);
            crate::parser::lemma_token_parsers_bounds(s, p3);
            let p4 = opt_pos(spec_operand(s, p3), p3);
            crate::parser::lemma_token_parsers_bounds(s, p4);
        },
        None => {},
    }
}

/// Parses one opcode-bearing instruction.
pub fn instruction_combined(s: &[u8], pos: usize) -> (r: Option<(usize, AssemblerInstruction)>)
    requires
        pos <= s.len(),
    ensures
        opt_instr_view(r) == spec_instruction_combined(s@, pos as int),
{
    let lab = label_declaration(s, pos);
    let p1 = match &lab {
        Some((p, _)) => *p,
        None => pos,
    };
    proof {
        crate::parser::lemma_token_parsers_bounds(s@, pos as int);
    }
    match opcode(s, p1) {
        Some((p2, op)) => {
            proof {
                crate::parser::lemma_token_parsers_bounds(s@, p1 as int);
            }
            let o1 = operand(s, p2);
            let p3 = match &o1 {
                Some((p, _)) => *p,
                None => p2,
            };
            proof {
                crate::parser::lemma_token_parsers_bounds(s@, p2 as int);
            }
            let o2 = operand(s, p3);
            let p4 = match &o2 {
                Some((p, _)) => *p,
                None => p3,
            };
            proof {
                crate::parser::lemma_token_parsers_bounds(s@, p3 as int);
            }
            let o3 = operand(s, p4);
            let p5 = match &o3 {
                Some((p, _)) => *p,
                None => p4,
            };
            Some(
                (
                    p5,
                    AssemblerInstruction {
                        opcode: Some(op),
                        label: match lab {
                            Some((_, t)) => Some(t),
                            None => None,
                        },
                        directive: None,
                        operand1: match o1 {
                            Some((_, t)) => Some(t),
                            None => None,
                        },
                        operand2: match o2 {
                            Some((_, t)) => Some(t),
                            None => None,
                        },
                        operand3: match o3 {
                            Some((_, t)) => Some(t),
                            None => None,
                        },
                    },
                ),
            )
        },
        None => None,
    }
}

/// Parses one directive instruction.
pub fn directive_combined(s: &[u8], pos: usize) -> (r: Option<(usize, AssemblerInstruction)>)
    requires
        pos <= s.len(),
    ensures
        opt_instr_view(r) == spec_directive_combined(s@, pos as int),
{
    let lab = label_declaration(s, pos);
    let p1 = match &lab {
        Some((p, _)) => *p,
        None => pos,
    };
    proof {
        crate::parser::lemma_token_parsers_bounds(s@, pos as int);
    }
    match directive_declaration(s, p1) {
        Some((p2, d)) => {
            proof {
                crate::parser::lemma_token_parsers_bounds(s@, p1 as int);
            }
            let o1 = operand(s, p2);
            let p3 = match &o1 {
                Some((p, _)) => *p,
                None => p2,
            };
            proof {
                crate::parser::lemma_token_parsers_bounds(s@, p2 as int);
            }
            let o2 = operand(s, p3);
            let p4 = match &o2 {
                Some((p, _)) => *p,
                None => p3,
            };
            proof {
                crate::parser::lemma_token_parsers_bounds(s@, p3 as int);
            }
            let o3 = operand(s, p4);
            let p5 = match &o3 {
                Some((p, _)) => *p,
                None => p4,
            };
            Some(
                (
                    p5,
                    AssemblerInstruction {
                        opcode: None,
                        label: match lab {
                            Some((_, t)) => Some(t),
                            None => None,
                        },
                        directive: Some(d),
                        operand1: match o1 {
                            Some((_, t)) => Some(t),
                            None => None,
                        },
                        operand2: match o2 {
                            Some((_, t)) => Some(t),
                            None => None,
                        },
                        operand3: match o3 {
                            Some((_, t)) => Some(t),
                            None => None,
                        },
                    },
                ),
            )
        },
        None => None,
    }
}

/// Parses one instruction: an opcode-bearing one if it matches, else a
/// directive.
pub fn instruction(s: &[u8], pos: usize) -> (r: Option<(usize, AssemblerInstruction)>)
    requires
        pos <= s.len(),
    ensures
        opt_instr_view(r) == spec_instruction(s@, pos as int),
{
    let r = instruction_combined(s, pos);
    if r.is_some() {
        return r;
    }
    directive_combined(s, pos)
}

/// The longest run of instructions parseable from `pos`, and the position
/// where parsing stopped.
pub open spec fn spec_instructions(s: Seq<u8>, pos: int) -> (Seq<InstrView>, int)
    decreases s.len() - pos,
    when 0 <= pos <= s.len()
    via spec_instructions_decreases
{
    match spec_instruction(s, pos) {
        Some((p2, iv)) => {
            let (rest, e) = spec_instructions(s, p2);
            (seq![iv] + rest, e)
        },
        None => (Seq::empty(), pos),
    }
}

#[via_fn]
proof fn spec_instructions_decreases(s: Seq<u8>, pos: int) {
    lemma_instruction_consumes(s, pos);
}

/// Parsing stops inside the input.
pub proof fn lemma_instructions_end(s: Seq<u8>, pos: int)
    requires
        0 <= pos <= s.len(),
    ensures
        pos <= spec_instructions(s, pos).1 <= s.len(),
    decreases s.len() - pos,
{
    lemma_instruction_consumes(s, pos);
    match spec_instruction(s, pos) {
        Some((p2, _)) => {
            lemma_instructions_end(s, p2);
        },
        None => {},
    }
}


/// Every instruction a parse yields is well formed: its opcode slot, when
/// filled, holds an opcode token.
pub proof fn lemma_instructions_wf(s: Seq<u8>, pos: int)
    requires
        0 <= pos <= s.len(),
    ensures
        forall|i: int|
            0 <= i < spec_instructions(s, pos).0.len() ==> ((#[trigger] spec_instructions(
                s,
                pos,
            ).0[i].opcode) matches Some(t) ==> t is Op),
    decreases s.len() - pos,
{
    lemma_instruction_consumes(s, pos);
    match spec_instruction(s, pos) {
        Some((p2, iv)) => {
            lemma_instructions_wf(s, p2);
            let ivs = spec_instructions(s, pos).0;
            let rest = spec_instructions(s, p2).0;
            assert(ivs == seq![iv] + rest);
            assert(iv.opcode matches Some(t) ==> t is Op);
            assert forall|i: int|
                0 <= i < ivs.len() implies ((#[trigger] ivs[i].opcode) matches Some(t) ==> t
                is Op) by {
                if i > 0 {
                    assert(ivs[i] == rest[i - 1]);
                }
            }
        },
        None => {},
    }
}

/// Every instruction of a successfully parsed program is well formed in
/// that sense.
pub proof fn lemma_program_instructions_wf(s: Seq<u8>)
    ensures
        spec_program(s) matches Ok(ivs) ==> forall|i: int|
            0 <= i < ivs.len() ==> ((#[trigger] ivs[i].opcode) matches Some(t) ==> t is Op),
{
    lemma_instructions_wf(s, 0);
}

/// What parsing a whole source yields: its instructions when at least one
/// instruction parses and only whitespace remains; otherwise the offending
/// remainder.
pub open spec fn spec_program(s: Seq<u8>) -> Result<Seq<InstrView>, Seq<u8>> {
    let (ivs, e) = spec_instructions(s, 0);
    let rest = ws_end(s, e);
    if ivs.len() >= 1 && rest == s.len() {
        Ok(ivs)
    } else {
        Err(s.subrange(rest, s.len() as int))
    }
}

/// A parsed program: its instructions in source order.
#[derive(Debug)]
pub struct Program {
    pub instructions: Vec<AssemblerInstruction>,
}

/// The view of an instruction list.
pub open spec fn instrs_view(v: Seq<AssemblerInstruction>) -> Seq<InstrView> {
    v.map_values(|i: AssemblerInstruction| i@)
}

impl View for Program {
    type V = Seq<InstrView>;

    open spec fn view(&self) -> Seq<InstrView> {
        instrs_view(self.instructions@)
    }
}

/// Parses a whole source text into a program: every instruction in order,
/// with nothing but whitespace left over. A malformed source fails as a
/// whole with a `ParseError` carrying the offending remainder.
pub fn program(s: &[u8]) -> (r: Result<Program, AssemblerError>)
    ensures
        match r {
            Ok(p) => spec_program(s@) == Ok::<Seq<InstrView>, Seq<u8>>(p@),
            Err(e) => spec_program(s@) matches Err(rem) && e@
                == (crate::errors::AssemblerErrorView::ParseError { remainder: rem }),
        },
{
    let mut instrs: Vec<AssemblerInstruction> = Vec::new();
    let mut pos: usize = 0;
    proof {
        assert(instrs_view(instrs@) =~= Seq::<InstrView>::empty());
    }
    loop
        invariant
            pos <= s.len(),
            spec_instructions(s@, 0) == {
                let (rest, e) = spec_instructions(s@, pos as int);
                (instrs_view(instrs@) + rest, e)
            },
        ensures
            pos <= s.len(),
            spec_instruction(s@, pos as int) is None,
            spec_instructions(s@, 0) == (instrs_view(instrs@), pos as int),
        decreases s.len() - pos,
    {
        proof {
            lemma_instruction_consumes(s@, pos as int);
        }
        match instruction(s, pos) {
            Some((p2, inst)) => {
                let ghost pre = instrs_view(instrs@);
                instrs.push(inst);
                proof {
                    assert(instrs_view(instrs@) =~= pre.push(inst@));
                    let (rest2, e2) = spec_instructions(s@, p2 as int);
                    assert(instrs_view(instrs@) + rest2 =~= pre + (seq![inst@] + rest2));
                }
                pos = p2;
            },
            None => {
                proof {
                    let (rest, e) = spec_instructions(s@, pos as int);
                    assert(rest =~= Seq::<InstrView>::empty());
                    assert(instrs_view(instrs@) + rest =~= instrs_view(instrs@));
                }
                break ;
            },
        }
    }
    let rest = skip_ws(s, pos);
    if instrs.len() >= 1 && rest == s.len() {
        Ok(Program { instructions: instrs })
    } else {
        let remainder = vstd::slice::slice_to_vec(vstd::slice::slice_subrange(s, rest, s.len()));
        Err(AssemblerError::ParseError { remainder })
    }
}

/// The low 16 bits of a 32-bit value's two's-complement form.
pub open spec fn spec_low16(value: i32) -> int {
    (if value >= 0 {
        value as int
    } else {
        value + 0x1_0000_0000
    }) % 0x10000
}

/// The two big-endian bytes that a 16-bit immediate emits: the low 16 bits
/// of the value, high byte first.
pub open spec fn spec_imm16_bytes(value: i32) -> Seq<u8> {
    seq![(spec_low16(value) / 256) as u8, (spec_low16(value) % 256) as u8]
}

/// The two big-endian bytes that a resolved label offset emits: the low 16
/// bits of the offset, high byte first.
pub open spec fn spec_offset_bytes(off: u32) -> Seq<u8> {
    seq![((off as int / 256) % 256) as u8, ((off as int) % 256) as u8]
}

/// The bytes one operand token emits: one byte for a register, two for an
/// integer, two for a resolved label use — and none for an unresolved one,
/// which degrades to padding.
pub open spec fn spec_operand_bytes(t: TokenView, syms: Seq<SymbolView>) -> Seq<u8> {
    match t {
        TokenView::Register { reg_num } => seq![reg_num],
        TokenView::IntegerOperand { value } => spec_imm16_bytes(value),
        TokenView::LabelUsage { name } => match spec_symbol_value(syms, name) {
            Some(off) => spec_offset_bytes(off),
            None => Seq::empty(),
        },
        _ => Seq::empty(),
    }
}

/// The bytes of an optional operand.
pub open spec fn spec_opt_operand_bytes(t: Option<TokenView>, syms: Seq<SymbolView>) -> Seq<u8> {
    match t {
        Some(t) => spec_operand_bytes(t, syms),
        None => Seq::empty(),
    }
}

/// A byte string padded with zeros up to four bytes.
pub open spec fn pad4(b: Seq<u8>) -> Seq<u8> {
    if b.len() >= 4 {
        b
    } else {
        b + Seq::new((4 - b.len()) as nat, |i: int| 0u8)
    }
}

/// The bytes an opcode-bearing instruction emits: the opcode byte, each
/// operand's bytes, padded with zeros to the four-byte instruction slot.
pub open spec fn spec_instruction_bytes(iv: InstrView, syms: Seq<SymbolView>) -> Seq<u8> {
    let code = iv.opcode->Some_0->code;
    pad4(
        seq![spec_opcode_byte(code)] + spec_opt_operand_bytes(iv.operand1, syms)
            + spec_opt_operand_bytes(iv.operand2, syms) + spec_opt_operand_bytes(iv.operand3, syms),
    )
}


/// Law: an opcode-bearing instruction whose operands emit at most three
/// bytes — as every well-formed instruction of this set does — encodes to
/// exactly the fixed four-byte instruction slot.
pub proof fn lemma_instruction_slot_four_bytes(iv: InstrView, syms: Seq<SymbolView>)
    requires
        iv.opcode matches Some(t) && t is Op,
        spec_opt_operand_bytes(iv.operand1, syms).len() + spec_opt_operand_bytes(
            iv.operand2,
            syms,
        ).len() + spec_opt_operand_bytes(iv.operand3, syms).len() <= 3,
    ensures
        spec_instruction_bytes(iv, syms).len() == 4,
{
}

impl AssemblerInstruction {
    /// Appends the bytes of one operand token to `ret`: a register's number,
    /// an immediate's two bytes, or a resolved label offset's two bytes. An
    /// unresolved label emits nothing. Tokens that cannot stand as operands
    /// emit nothing.
    fn extract_operand(token: &Token, ret: &mut Vec<u8>, symbols: &SymbolTable)
        ensures
            final (ret)@ == old(ret)@ + spec_operand_bytes(token@, symbols@),
    {
        let ghost pre = ret@;
        match token {
            Token::Register { reg_num } => {
                ret.push(*reg_num);
                proof {
                    assert(ret@ =~= pre + spec_operand_bytes(token@, symbols@));
                }
            },
            Token::IntegerOperand { value } => {
                let w: i64 = *value as i64;
                let u: u32 = if w >= 0 {
                    w as u32
                } else {
                    (w + 0x1_0000_0000) as u32
                };
                let v: u32 = u % 65536;
                ret.push((v / 256) as u8);
                ret.push((v % 256) as u8);
                proof {
                    assert(v == spec_low16(*value));
                    assert(ret@ =~= pre + spec_operand_bytes(token@, symbols@));
                }
            },
            Token::LabelUsage { name } => {
                match symbols.symbol_value(name.as_slice()) {
                    Some(off) => {
                        ret.push(((off / 256) % 256) as u8);
                        ret.push((off % 256) as u8);
                        proof {
                            assert(ret@ =~= pre + spec_operand_bytes(token@, symbols@));
                        }
                    },
                    None => {
                        proof {
                            assert(ret@ =~= pre + spec_operand_bytes(token@, symbols@));
                        }
                    },
                }
            },
            _ => {
                proof {
                    assert(ret@ =~= pre + spec_operand_bytes(token@, symbols@));
                }
            },
        }
    }

    /// The bytes this instruction emits: its opcode byte and its operands'
    /// bytes, zero-padded to the four-byte instruction slot. Only an
    /// opcode-bearing instruction can be encoded.
    pub fn to_bytes(&self, symbols: &SymbolTable) -> (r: Vec<u8>)
        requires
            self@.opcode matches Some(t) && t is Op,
        ensures
            r@ == spec_instruction_bytes(self@, symbols@),
    {
        let mut ret: Vec<u8> = Vec::new();
        match &self.opcode {
            Some(Token::Op { code }) => {
                ret.push(code.to_byte());
            },
            _ => {
                proof {
                    assert(false);
                }
            },
        }
        match &self.operand1 {
            Some(t) => Self::extract_operand(t, &mut ret, symbols),
            None => (),
        }
        match &self.operand2 {
            Some(t) => Self::extract_operand(t, &mut ret, symbols),
            None => (),
        }
        match &self.operand3 {
            Some(t) => Self::extract_operand(t, &mut ret, symbols),
            None => (),
        }
        proof {
            let code = self@.opcode->Some_0->code;
            assert(ret@ =~= seq![spec_opcode_byte(code)] + spec_opt_operand_bytes(
                self@.operand1,
                symbols@,
            ) + spec_opt_operand_bytes(self@.operand2, symbols@) + spec_opt_operand_bytes(
                self@.operand3,
                symbols@,
            ));
        }
        while ret.len() < 4
            invariant
                spec_instruction_bytes(self@, symbols@) == pad4(ret@),
            decreases 4 - ret.len(),
        {
            let ghost pre = ret@;
            ret.push(0);
            proof {
                assert(pad4(pre) =~= pad4(ret@));
            }
        }
        proof {
            assert(pad4(ret@) =~= ret@);
        }
        ret
    }

    /// Whether this instruction carries a label token.
    pub fn is_label(&self) -> (r: bool)
        ensures
            r == spec_is_label(self@),
    {
        match &self.label {
            Some(Token::LabelDeclaration { .. }) => true,
            Some(Token::LabelUsage { .. }) => true,
            _ => false,
        }
    }

    /// Whether this instruction is a directive.
    pub fn is_directive(&self) -> (r: bool)
        ensures
            r == self@.directive is Some,
    {
        self.directive.is_some()
    }

    /// Whether this instruction carries an opcode.
    pub fn is_opcode(&self) -> (r: bool)
        ensures
            r == self@.opcode is Some,
    {
        self.opcode.is_some()
    }

    /// Whether this instruction has any operand.
    pub fn has_operands(&self) -> (r: bool)
        ensures
            r == (self@.operand1 is Some || self@.operand2 is Some || self@.operand3 is Some),
    {
        self.operand1.is_some() || self.operand2.is_some() || self.operand3.is_some()
    }

    /// The name of this instruction's label, when the label is a
    /// declaration.
    pub fn get_label_name(&self) -> (r: Option<Vec<u8>>)
        ensures
            opt_bytes_view(r) == spec_label_name(self@),
    {
        match &self.label {
            Some(Token::LabelDeclaration { name }) => Some(
                vstd::slice::slice_to_vec(name.as_slice()),
            ),
            _ => None,
        }
    }

    /// The name of this instruction's directive, when it has one.
    pub fn get_directive_name(&self) -> (r: Option<Vec<u8>>)
        ensures
            opt_bytes_view(r) == spec_directive_name(self@),
    {
        match &self.directive {
            Some(Token::Directive { name }) => Some(vstd::slice::slice_to_vec(name.as_slice())),
            _ => None,
        }
    }

    /// The content of this instruction's string constant, when its first
    /// operand is one.
    pub fn get_string_constant(&self) -> (r: Option<Vec<u8>>)
        ensures
            opt_bytes_view(r) == spec_string_constant(self@),
    {
        match &self.operand1 {
            Some(Token::IrString { name }) => Some(vstd::slice::slice_to_vec(name.as_slice())),
            _ => None,
        }
    }
}

/// The view of an optional byte vector.
pub open spec fn opt_bytes_view(r: Option<Vec<u8>>) -> Option<Seq<u8>> {
    match r {
        Some(v) => Some(v@),
        None => None,
    }
}

/// Whether an instruction carries a label token.
pub open spec fn spec_is_label(iv: InstrView) -> bool {
    iv.label matches Some(TokenView::LabelDeclaration { .. }) || iv.label matches Some(
        TokenView::LabelUsage { .. },
    )
}

/// The name under a label declaration, if the instruction has one.
pub open spec fn spec_label_name(iv: InstrView) -> Option<Seq<u8>> {
    match iv.label {
        Some(TokenView::LabelDeclaration { name }) => Some(name),
        _ => None,
    }
}

/// The directive name, if the instruction has one.
pub open spec fn spec_directive_name(iv: InstrView) -> Option<Seq<u8>> {
    match iv.directive {
        Some(TokenView::Directive { name }) => Some(name),
        _ => None,
    }
}

/// The string constant in the first operand, if there is one.
pub open spec fn spec_string_constant(iv: InstrView) -> Option<Seq<u8>> {
    match iv.operand1 {
        Some(TokenView::IrString { name }) => Some(name),
        _ => None,
    }
}

/// Whether every instruction of the sequence carries an opcode.
pub open spec fn all_opcodes(ivs: Seq<InstrView>) -> bool {
    forall|i: int|
        0 <= i < ivs.len() ==> ((#[trigger] ivs[i].opcode) matches Some(t) && t is Op)
}

/// The concatenated bytes of a run of opcode-bearing instructions.
pub open spec fn spec_program_bytes(ivs: Seq<InstrView>, syms: Seq<SymbolView>) -> Seq<u8>
    decreases ivs.len(),
{
    if ivs.len() == 0 {
        Seq::empty()
    } else {
        spec_program_bytes(ivs.drop_last(), syms) + spec_instruction_bytes(ivs.last(), syms)
    }
}

impl Program {
    /// The bytes of the whole program: each instruction's four-byte (or
    /// longer) encoding, concatenated in order. Every instruction must carry
    /// an opcode.
    pub fn to_bytes(&self, symbols: &SymbolTable) -> (r: Vec<u8>)
        requires
            all_opcodes(self@),
        ensures
            r@ == spec_program_bytes(self@, symbols@),
    {
        let mut out: Vec<u8> = Vec::new();
        let mut i: usize = 0;
        proof {
            assert(out@ =~= spec_program_bytes(self@.subrange(0, 0), symbols@));
        }
        while i < self.instructions.len()
            invariant
                i <= self.instructions.len(),
                all_opcodes(self@),
                out@ == spec_program_bytes(self@.subrange(0, i as int), symbols@),
            decreases self.instructions.len() - i,
        {
            proof {
                assert(self@[i as int] == self.instructions@[i as int]@);
            }
            let mut bytes = self.instructions[i].to_bytes(symbols);
            let ghost pre = out@;
            out.append(&mut bytes);
            proof {
                let sub = self@.subrange(0, i as int + 1);
                assert(sub.drop_last() =~= self@.subrange(0, i as int));
                assert(sub.last() == self@[i as int]);
                assert(out@ =~= spec_program_bytes(sub, symbols@));
            }
            i = i + 1;
        }
        proof {
            assert(self@.subrange(0, self.instructions@.len() as int) =~= self@);
        }
        out
    }
}

} // verus!

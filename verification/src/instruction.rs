//! The instruction set: opcodes, their byte encoding, and their mnemonics.
//!
//! The opcode <-> byte <-> mnemonic mapping is a total function in each
//! direction; every byte that is not assigned to an opcode decodes to `IGL`
//! (illegal), and every unknown mnemonic reads as `IGL` as well.
use vstd::prelude::*;

verus! {

/// One operation of the virtual machine. `IGL` stands for every illegal
/// (unassigned) opcode byte.
#[derive(Debug, PartialEq, Eq, Structural, Clone, Copy)]
pub enum Opcode {
    LOAD,
    ADD,
    SUB,
    MUL,
    DIV,
    INC,
    DEC,
    EQ,
    NEQ,
    GT,
    LT,
    GTE,
    LTE,
    JEQ,
    JNEQ,
    JMPB,
    JMP,
    JMPF,
    NOP,
    ALOC,
    PRTS,
    HLT,
    IGL,
}

/// The byte that encodes each opcode in a program image.
pub open spec fn spec_opcode_byte(op: Opcode) -> u8 {
    match op {
        Opcode::LOAD => 0,
        Opcode::ADD => 10,
        Opcode::SUB => 11,
        Opcode::MUL => 12,
        Opcode::DIV => 13,
        Opcode::INC => 14,
        Opcode::DEC => 15,
        Opcode::EQ => 20,
        Opcode::NEQ => 21,
        Opcode::GT => 22,
        Opcode::LT => 23,
        Opcode::GTE => 24,
        Opcode::LTE => 25,
        Opcode::JEQ => 26,
        Opcode::JNEQ => 27,
        Opcode::JMPB => 79,
        Opcode::JMP => 80,
        Opcode::JMPF => 81,
        Opcode::NOP => 98,
        Opcode::ALOC => 100,
        Opcode::PRTS => 101,
        Opcode::HLT => 254,
        Opcode::IGL => 255,
    }
}

/// The opcode that a byte of a program image decodes to.
pub open spec fn spec_byte_opcode(b: u8) -> Opcode {
    if b == 0 {
        Opcode::LOAD
    } else if b == 10 {
        Opcode::ADD
    } else if b == 11 {
        Opcode::SUB
    } else if b == 12 {
        Opcode::MUL
    } else if b == 13 {
        Opcode::DIV
    } else if b == 14 {
        Opcode::INC
    } else if b == 15 {
        Opcode::DEC
    } else if b == 20 {
        Opcode::EQ
    } else if b == 21 {
        Opcode::NEQ
    } else if b == 22 {
        Opcode::GT
    } else if b == 23 {
        Opcode::LT
    } else if b == 24 {
        Opcode::GTE
    } else if b == 25 {
        Opcode::LTE
    } else if b == 26 {
        Opcode::JEQ
    } else if b == 27 {
        Opcode::JNEQ
    } else if b == 79 {
        Opcode::JMPB
    } else if b == 80 {
        Opcode::JMP
    } else if b == 81 {
        Opcode::JMPF
    } else if b == 98 {
        Opcode::NOP
    } else if b == 100 {
        Opcode::ALOC
    } else if b == 101 {
        Opcode::PRTS
    } else if b == 254 {
        Opcode::HLT
    } else {
        Opcode::IGL
    }
}

/// A byte mapped to upper case if it is an ASCII lower-case letter.
pub open spec fn spec_upper(b: u8) -> u8 {
    if 97 <= b <= 122 {
        (b - 32) as u8
    } else {
        b
    }
}

/// A byte sequence mapped to ASCII upper case.
pub open spec fn spec_upper_seq(s: Seq<u8>) -> Seq<u8> {
    s.map_values(|b: u8| spec_upper(b))
}

/// The upper-case ASCII mnemonic of each opcode, as it appears in assembly
/// text.
pub open spec fn spec_mnemonic(op: Opcode) -> Seq<u8> {
    match op {
        Opcode::LOAD => seq![76u8, 79u8, 65u8, 68u8],
        Opcode::ADD => seq![65u8, 68u8, 68u8],
        Opcode::SUB => seq![83u8, 85u8, 66u8],
        Opcode::MUL => seq![77u8, 85u8, 76u8],
        Opcode::DIV => seq![68u8, 73u8, 86u8],
        Opcode::INC => seq![73u8, 78u8, 67u8],
        Opcode::DEC => seq![68u8, 69u8, 67u8],
        Opcode::EQ => seq![69u8, 81u8],
        Opcode::NEQ => seq![78u8, 69u8, 81u8],
        Opcode::GT => seq![71u8, 84u8],
        Opcode::LT => seq![76u8, 84u8],
        Opcode::GTE => seq![71u8, 84u8, 69u8],
        Opcode::LTE => seq![76u8, 84u8, 69u8],
        Opcode::JEQ => seq![74u8, 69u8, 81u8],
        Opcode::JNEQ => seq![74u8, 78u8, 69u8, 81u8],
        Opcode::JMPB => seq![74u8, 77u8, 80u8, 66u8],
        Opcode::JMP => seq![74u8, 77u8, 80u8],
        Opcode::JMPF => seq![74u8, 77u8, 80u8, 70u8],
        Opcode::NOP => seq![78u8, 79u8, 80u8],
        Opcode::ALOC => seq![65u8, 76u8, 79u8, 67u8],
        Opcode::PRTS => seq![80u8, 82u8, 84u8, 83u8],
        Opcode::HLT => seq![72u8, 76u8, 84u8],
        Opcode::IGL => seq![73u8, 71u8, 76u8],
    }
}

/// The opcode named by a piece of assembly text, compared without regard to
/// letter case; an unknown name reads as `IGL`.
pub open spec fn spec_mnemonic_opcode(s: Seq<u8>) -> Opcode {
    let u = spec_upper_seq(s);
    if u == spec_mnemonic(Opcode::LOAD) {
        Opcode::LOAD
    } else if u == spec_mnemonic(Opcode::ADD) {
        Opcode::ADD
    } else if u == spec_mnemonic(Opcode::SUB) {
        Opcode::SUB
    } else if u == spec_mnemonic(Opcode::MUL) {
        Opcode::MUL
    } else if u == spec_mnemonic(Opcode::DIV) {
        Opcode::DIV
    } else if u == spec_mnemonic(Opcode::INC) {
        Opcode::INC
    } else if u == spec_mnemonic(Opcode::DEC) {
        Opcode::DEC
    } else if u == spec_mnemonic(Opcode::EQ) {
        Opcode::EQ
    } else if u == spec_mnemonic(Opcode::NEQ) {
        Opcode::NEQ
    } else if u == spec_mnemonic(Opcode::GT) {
        Opcode::GT
    } else if u == spec_mnemonic(Opcode::LT) {
        Opcode::LT
    } else if u == spec_mnemonic(Opcode::GTE) {
        Opcode::GTE
    } else if u == spec_mnemonic(Opcode::LTE) {
        Opcode::LTE
    } else if u == spec_mnemonic(Opcode::JEQ) {
        Opcode::JEQ
    } else if u == spec_mnemonic(Opcode::JNEQ) {
        Opcode::JNEQ
    } else if u == spec_mnemonic(Opcode::JMPB) {
        Opcode::JMPB
    } else if u == spec_mnemonic(Opcode::JMP) {
        Opcode::JMP
    } else if u == spec_mnemonic(Opcode::JMPF) {
        Opcode::JMPF
    } else if u == spec_mnemonic(Opcode::NOP) {
        Opcode::NOP
    } else if u == spec_mnemonic(Opcode::ALOC) {
        Opcode::ALOC
    } else if u == spec_mnemonic(Opcode::PRTS) {
        Opcode::PRTS
    } else if u == spec_mnemonic(Opcode::HLT) {
        Opcode::HLT
    } else {
        Opcode::IGL
    }
}

impl Opcode {
    /// The byte this opcode is encoded as in a program image.
    pub fn to_byte(self) -> (b: u8)
        ensures
            b == spec_opcode_byte(self),
    {
        match self {
            Opcode::LOAD => 0,
            Opcode::ADD => 10,
            Opcode::SUB => 11,
            Opcode::MUL => 12,
            Opcode::DIV => 13,
            Opcode::INC => 14,
            Opcode::DEC => 15,
            Opcode::EQ => 20,
            Opcode::NEQ => 21,
            Opcode::GT => 22,
            Opcode::LT => 23,
            Opcode::GTE => 24,
            Opcode::LTE => 25,
            Opcode::JEQ => 26,
            Opcode::JNEQ => 27,
            Opcode::JMPB => 79,
            Opcode::JMP => 80,
            Opcode::JMPF => 81,
            Opcode::NOP => 98,
            Opcode::ALOC => 100,
            Opcode::PRTS => 101,
            Opcode::HLT => 254,
            Opcode::IGL => 255,
        }
    }

    /// The opcode a program byte decodes to; unassigned bytes decode to `IGL`.
    pub fn from_byte(b: u8) -> (op: Opcode)
        ensures
            op == spec_byte_opcode(b),
    {
        if b == 0 {
            Opcode::LOAD
        } else if b == 10 {
            Opcode::ADD
        } else if b == 11 {
            Opcode::SUB
        } else if b == 12 {
            Opcode::MUL
        } else if b == 13 {
            Opcode::DIV
        } else if b == 14 {
            Opcode::INC
        } else if b == 15 {
            Opcode::DEC
        } else if b == 20 {
            Opcode::EQ
        } else if b == 21 {
            Opcode::NEQ
        } else if b == 22 {
            Opcode::GT
        } else if b == 23 {
            Opcode::LT
        } else if b == 24 {
            Opcode::GTE
        } else if b == 25 {
            Opcode::LTE
        } else if b == 26 {
            Opcode::JEQ
        } else if b == 27 {
            Opcode::JNEQ
        } else if b == 79 {
            Opcode::JMPB
        } else if b == 80 {
            Opcode::JMP
        } else if b == 81 {
            Opcode::JMPF
        } else if b == 98 {
            Opcode::NOP
        } else if b == 100 {
            Opcode::ALOC
        } else if b == 101 {
            Opcode::PRTS
        } else if b == 254 {
            Opcode::HLT
        } else {
            Opcode::IGL
        }
    }

    /// The opcode named by assembly text, matched without regard to letter
    /// case; an unknown name reads as `IGL`.
    pub fn from_mnemonic(name: &[u8]) -> (op: Opcode)
        ensures
            op == spec_mnemonic_opcode(name@),
    {
        let u = to_upper_vec(name);
        let n = u.len();
        proof {
            assert(u@ == spec_upper_seq(name@));
        }
        // Each arm compares against one upper-case mnemonic, spelled in
        // ASCII byte values.
        if n == 4 && u[0] == 76 && u[1] == 79 && u[2] == 65 && u[3] == 68 {
            // LOAD
            proof { assert(u@ =~= spec_mnemonic(Opcode::LOAD)); }
            Opcode::LOAD
        } else if n == 3 && u[0] == 65 && u[1] == 68 && u[2] == 68 {
            // ADD
            proof { assert(u@ =~= spec_mnemonic(Opcode::ADD)); }
            Opcode::ADD
        } else if n == 3 && u[0] == 83 && u[1] == 85 && u[2] == 66 {
            // SUB
            proof { assert(u@ =~= spec_mnemonic(Opcode::SUB)); }
            Opcode::SUB
        } else if n == 3 && u[0] == 77 && u[1] == 85 && u[2] == 76 {
            // MUL
            proof { assert(u@ =~= spec_mnemonic(Opcode::MUL)); }
            Opcode::MUL
        } else if n == 3 && u[0] == 68 && u[1] == 73 && u[2] == 86 {
            // DIV
            proof { assert(u@ =~= spec_mnemonic(Opcode::DIV)); }
            Opcode::DIV
        } else if n == 3 && u[0] == 73 && u[1] == 78 && u[2] == 67 {
            // INC
            proof { assert(u@ =~= spec_mnemonic(Opcode::INC)); }
            Opcode::INC
        } else if n == 3 && u[0] == 68 && u[1] == 69 && u[2] == 67 {
            // DEC
            proof { assert(u@ =~= spec_mnemonic(Opcode::DEC)); }
            Opcode::DEC
        } else if n == 2 && u[0] == 69 && u[1] == 81 {
            // EQ
            proof { assert(u@ =~= spec_mnemonic(Opcode::EQ)); }
            Opcode::EQ
        } else if n == 3 && u[0] == 78 && u[1] == 69 && u[2] == 81 {
            // NEQ
            proof { assert(u@ =~= spec_mnemonic(Opcode::NEQ)); }
            Opcode::NEQ
        } else if n == 2 && u[0] == 71 && u[1] == 84 {
            // GT
            proof { assert(u@ =~= spec_mnemonic(Opcode::GT)); }
            Opcode::GT
        } else if n == 2 && u[0] == 76 && u[1] == 84 {
            // LT
            proof { assert(u@ =~= spec_mnemonic(Opcode::LT)); }
            Opcode::LT
        } else if n == 3 && u[0] == 71 && u[1] == 84 && u[2] == 69 {
            // GTE
            proof { assert(u@ =~= spec_mnemonic(Opcode::GTE)); }
            Opcode::GTE
        } else if n == 3 && u[0] == 76 && u[1] == 84 && u[2] == 69 {
            // LTE
            proof { assert(u@ =~= spec_mnemonic(Opcode::LTE)); }
            Opcode::LTE
        } else if n == 3 && u[0] == 74 && u[1] == 69 && u[2] == 81 {
            // JEQ
            proof { assert(u@ =~= spec_mnemonic(Opcode::JEQ)); }
            Opcode::JEQ
        } else if n == 4 && u[0] == 74 && u[1] == 78 && u[2] == 69 && u[3] == 81 {
            // JNEQ
            proof { assert(u@ =~= spec_mnemonic(Opcode::JNEQ)); }
            Opcode::JNEQ
        } else if n == 4 && u[0] == 74 && u[1] == 77 && u[2] == 80 && u[3] == 66 {
            // JMPB
            proof { assert(u@ =~= spec_mnemonic(Opcode::JMPB)); }
            Opcode::JMPB
        } else if n == 3 && u[0] == 74 && u[1] == 77 && u[2] == 80 {
            // JMP
            proof { assert(u@ =~= spec_mnemonic(Opcode::JMP)); }
            Opcode::JMP
        } else if n == 4 && u[0] == 74 && u[1] == 77 && u[2] == 80 && u[3] == 70 {
            // JMPF
            proof { assert(u@ =~= spec_mnemonic(Opcode::JMPF)); }
            Opcode::JMPF
        } else if n == 3 && u[0] == 78 && u[1] == 79 && u[2] == 80 {
            // NOP
            proof { assert(u@ =~= spec_mnemonic(Opcode::NOP)); }
            Opcode::NOP
        } else if n == 4 && u[0] == 65 && u[1] == 76 && u[2] == 79 && u[3] == 67 {
            // ALOC
            proof { assert(u@ =~= spec_mnemonic(Opcode::ALOC)); }
            Opcode::ALOC
        } else if n == 4 && u[0] == 80 && u[1] == 82 && u[2] == 84 && u[3] == 83 {
            // PRTS
            proof { assert(u@ =~= spec_mnemonic(Opcode::PRTS)); }
            Opcode::PRTS
        } else if n == 3 && u[0] == 72 && u[1] == 76 && u[2] == 84 {
            // HLT
            proof { assert(u@ =~= spec_mnemonic(Opcode::HLT)); }
            Opcode::HLT
        } else {
            proof { lemma_no_mnemonic_matches(u@); }
            Opcode::IGL
        }
    }
}

/// In the unmatched arm of `from_mnemonic`, none of the known mnemonics can
/// equal the uppercased input, because each equality would force the very
/// length and bytes that the arm's condition excluded.
proof fn lemma_no_mnemonic_matches(u: Seq<u8>)
    requires
        !(u.len() == 4 && u[0] == 76 && u[1] == 79 && u[2] == 65 && u[3] == 68),
        !(u.len() == 3 && u[0] == 65 && u[1] == 68 && u[2] == 68),
        !(u.len() == 3 && u[0] == 83 && u[1] == 85 && u[2] == 66),
        !(u.len() == 3 && u[0] == 77 && u[1] == 85 && u[2] == 76),
        !(u.len() == 3 && u[0] == 68 && u[1] == 73 && u[2] == 86),
        !(u.len() == 3 && u[0] == 73 && u[1] == 78 && u[2] == 67),
        !(u.len() == 3 && u[0] == 68 && u[1] == 69 && u[2] == 67),
        !(u.len() == 2 && u[0] == 69 && u[1] == 81),
        !(u.len() == 3 && u[0] == 78 && u[1] == 69 && u[2] == 81),
        !(u.len() == 2 && u[0] == 71 && u[1] == 84),
        !(u.len() == 2 && u[0] == 76 && u[1] == 84),
        !(u.len() == 3 && u[0] == 71 && u[1] == 84 && u[2] == 69),
        !(u.len() == 3 && u[0] == 76 && u[1] == 84 && u[2] == 69),
        !(u.len() == 3 && u[0] == 74 && u[1] == 69 && u[2] == 81),
        !(u.len() == 4 && u[0] == 74 && u[1] == 78 && u[2] == 69 && u[3] == 81),
        !(u.len() == 4 && u[0] == 74 && u[1] == 77 && u[2] == 80 && u[3] == 66),
        !(u.len() == 3 && u[0] == 74 && u[1] == 77 && u[2] == 80),
        !(u.len() == 4 && u[0] == 74 && u[1] == 77 && u[2] == 80 && u[3] == 70),
        !(u.len() == 3 && u[0] == 78 && u[1] == 79 && u[2] == 80),
        !(u.len() == 4 && u[0] == 65 && u[1] == 76 && u[2] == 79 && u[3] == 67),
        !(u.len() == 4 && u[0] == 80 && u[1] == 82 && u[2] == 84 && u[3] == 83),
        !(u.len() == 3 && u[0] == 72 && u[1] == 76 && u[2] == 84),
    ensures
        forall|op: Opcode| op != Opcode::IGL ==> u != spec_mnemonic(op),
{
    assert forall|op: Opcode| op != Opcode::IGL implies u != spec_mnemonic(op) by {
        if u == spec_mnemonic(op) {
            assert(u.len() == spec_mnemonic(op).len());
        }
    }
}

/// The bytes of a slice mapped to ASCII upper case, one for one.
pub fn to_upper_vec(s: &[u8]) -> (r: Vec<u8>)
    ensures
        r@ == spec_upper_seq(s@),
{
    let mut r: Vec<u8> = Vec::new();
    let mut i: usize = 0;
    while i < s.len()
        invariant
            i <= s.len(),
            r@ =~= spec_upper_seq(s@).subrange(0, i as int),
        decreases s.len() - i,
    {
        let b = s[i];
        if 97 <= b && b <= 122 {
            r.push(b - 32);
        } else {
            r.push(b);
        }
        i = i + 1;
    }
    proof {
        assert(r@ =~= spec_upper_seq(s@));
    }
    r
}

impl From<u8> for Opcode {
    /// Decoding a byte with `Opcode::from` is `Opcode::from_byte`.
    fn from(value: u8) -> (op: Opcode)
        ensures
            op == spec_byte_opcode(value),
    {
        Opcode::from_byte(value)
    }
}

impl vstd::std_specs::convert::FromSpecImpl<u8> for Opcode {
    open spec fn obeys_from_spec() -> bool {
        true
    }

    open spec fn from_spec(value: u8) -> Opcode {
        spec_byte_opcode(value)
    }
}

impl From<Opcode> for u8 {
    /// Encoding an opcode with `u8::from` (or `.into()`) is `Opcode::to_byte`.
    fn from(value: Opcode) -> (b: u8)
        ensures
            b == spec_opcode_byte(value),
    {
        value.to_byte()
    }
}

impl vstd::std_specs::convert::FromSpecImpl<Opcode> for u8 {
    open spec fn obeys_from_spec() -> bool {
        true
    }

    open spec fn from_spec(value: Opcode) -> u8 {
        spec_opcode_byte(value)
    }
}

/// Decoding the byte an opcode encodes to gives the opcode back, for every
/// opcode; and every byte that decodes to an assigned opcode re-encodes to
/// the same byte. Together these make the opcode <-> byte mapping a
/// bijection between the assigned bytes and the opcodes other than `IGL`.
pub proof fn lemma_opcode_byte_roundtrip()
    ensures
        forall|op: Opcode| op != Opcode::IGL ==> spec_byte_opcode(#[trigger] spec_opcode_byte(op)) == op,
        forall|b: u8| spec_byte_opcode(b) != Opcode::IGL ==> spec_opcode_byte(#[trigger] spec_byte_opcode(b)) == b,
{
}

/// Reading back the mnemonic of an opcode names that opcode, for every opcode
/// other than `IGL`: the mnemonic <-> opcode mapping loses nothing.
pub proof fn lemma_mnemonic_roundtrip()
    ensures
        forall|op: Opcode| op != Opcode::IGL ==> spec_mnemonic_opcode(#[trigger] spec_mnemonic(op)) == op,
{
    assert forall|op: Opcode| op != Opcode::IGL implies spec_mnemonic_opcode(
        #[trigger] spec_mnemonic(op),
    ) == op by {
        let m = spec_mnemonic(op);
        assert(spec_upper_seq(m) =~= m);
        lemma_mnemonics_distinct(m, op);
    }
}

/// The upper-case mnemonics are pairwise distinct: if a sequence equals the
/// mnemonic of `op`, it differs from the mnemonic of every other opcode.
proof fn lemma_mnemonics_distinct(m: Seq<u8>, op: Opcode)
    requires
        m == spec_mnemonic(op),
    ensures
        forall|other: Opcode| other != op ==> m != spec_mnemonic(other),
{
    assert forall|other: Opcode| other != op implies m != spec_mnemonic(other) by {
        if m == spec_mnemonic(other) {
            assert(spec_mnemonic(op).len() == spec_mnemonic(other).len());
            assert(spec_mnemonic(op)[0] == spec_mnemonic(other)[0]);
            assert(spec_mnemonic(op)[1] == spec_mnemonic(other)[1]);
        }
    }
}

/// A decoded assembly instruction as the virtual machine sees it: for now,
/// just its opcode.
pub struct Instruction {
    pub opcode: Opcode,
}

impl Instruction {
    /// Builds the instruction record for one opcode.
    pub fn new(opcode: Opcode) -> (r: Instruction)
        ensures
            r.opcode == opcode,
    {
        Instruction { opcode }
    }
}

} // verus!

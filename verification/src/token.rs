//! Lexical tokens of the assembly language, and their mathematical view.
use vstd::prelude::*;

use crate::instruction::Opcode;

verus! {

/// One token of assembly text. Names and string contents are held as byte
/// vectors; the language is ASCII.
#[derive(Debug)]
pub enum Token {
    /// An opcode mnemonic.
    Op { code: Opcode },
    /// A register operand, written `$n`.
    Register { reg_num: u8 },
    /// An integer operand, written `#n`.
    IntegerOperand { value: i32 },
    /// A label declaration, written `name:`.
    LabelDeclaration { name: Vec<u8> },
    /// A label use, written `@name`.
    LabelUsage { name: Vec<u8> },
    /// A directive name, written `.name`.
    Directive { name: Vec<u8> },
    /// A single-quoted string constant.
    IrString { name: Vec<u8> },
}

/// The view of a token: the same variants over mathematical sequences.
pub ghost enum TokenView {
    Op { code: Opcode },
    Register { reg_num: u8 },
    IntegerOperand { value: i32 },
    LabelDeclaration { name: Seq<u8> },
    LabelUsage { name: Seq<u8> },
    Directive { name: Seq<u8> },
    IrString { name: Seq<u8> },
}

impl View for Token {
    type V = TokenView;

    open spec fn view(&self) -> TokenView {
        match self {
            Token::Op { code } => TokenView::Op { code: *code },
            Token::Register { reg_num } => TokenView::Register { reg_num: *reg_num },
            Token::IntegerOperand { value } => TokenView::IntegerOperand { value: *value },
            Token::LabelDeclaration { name } => TokenView::LabelDeclaration { name: name@ },
            Token::LabelUsage { name } => TokenView::LabelUsage { name: name@ },
            Token::Directive { name } => TokenView::Directive { name: name@ },
            Token::IrString { name } => TokenView::IrString { name: name@ },
        }
    }
}

impl PartialEq for Token {
    /// Two tokens are equal when they are the same variant with equal
    /// contents; for named tokens, when the names hold the same bytes.
    fn eq(&self, other: &Token) -> (r: bool) {
        match (self, other) {
            (Token::Op { code: a }, Token::Op { code: b }) => *a == *b,
            (Token::Register { reg_num: a }, Token::Register { reg_num: b }) => *a == *b,
            (Token::IntegerOperand { value: a }, Token::IntegerOperand { value: b }) => *a == *b,
            (Token::LabelDeclaration { name: a }, Token::LabelDeclaration { name: b }) => bytes_eq(
                a.as_slice(),
                b.as_slice(),
            ),
            (Token::LabelUsage { name: a }, Token::LabelUsage { name: b }) => bytes_eq(
                a.as_slice(),
                b.as_slice(),
            ),
            (Token::Directive { name: a }, Token::Directive { name: b }) => bytes_eq(
                a.as_slice(),
                b.as_slice(),
            ),
            (Token::IrString { name: a }, Token::IrString { name: b }) => bytes_eq(
                a.as_slice(),
                b.as_slice(),
            ),
            _ => false,
        }
    }
}

impl vstd::std_specs::cmp::PartialEqSpecImpl for Token {
    open spec fn obeys_eq_spec() -> bool {
        true
    }

    open spec fn eq_spec(&self, other: &Token) -> bool {
        self@ == other@
    }
}

/// Whether two byte slices hold the same bytes.
pub fn bytes_eq(a: &[u8], b: &[u8]) -> (r: bool)
    ensures
        r == (a@ == b@),
{
    if a.len() != b.len() {
        proof {
            assert(a@.len() != b@.len());
        }
        return false;
    }
    let mut i: usize = 0;
    while i < a.len()
        invariant
            i <= a.len(),
            a.len() == b.len(),
            forall|j: int| 0 <= j < i ==> a@[j] == b@[j],
        decreases a.len() - i,
    {
        if a[i] != b[i] {
            return false;
        }
        i = i + 1;
    }
    proof {
        assert(a@ =~= b@);
    }
    true
}

} // verus!

//! The assembler's error taxonomy.
use vstd::prelude::*;

verus! {

/// Everything that can go wrong while assembling. A parse failure carries
/// the unconsumed remainder of the source; the structural errors carry the
/// index of the instruction or the name of the directive at fault.
#[derive(Debug)]
pub enum AssemblerError {
    /// The source is malformed; the whole parse fails.
    ParseError { remainder: Vec<u8> },
    /// The program lacks a data or a code section.
    InsufficientSections,
    /// A label was declared before any section was opened.
    NoSegmentDeclarationFound { instruction: u32 },
    /// A string constant stands without a label to name it.
    StringConstantDeclaredWithoutLabel { instruction: u32 },
    /// A second declaration of a name already in the symbol table.
    SymbolAlreadyDeclared,
    /// A directive whose name the assembler does not know.
    UnknownDirectiveFound { directive: Vec<u8> },
}

/// The view of an assembler error, over sequences.
pub ghost enum AssemblerErrorView {
    ParseError { remainder: Seq<u8> },
    InsufficientSections,
    NoSegmentDeclarationFound { instruction: u32 },
    StringConstantDeclaredWithoutLabel { instruction: u32 },
    SymbolAlreadyDeclared,
    UnknownDirectiveFound { directive: Seq<u8> },
}

impl View for AssemblerError {
    type V = AssemblerErrorView;

    open spec fn view(&self) -> AssemblerErrorView {
        match self {
            AssemblerError::ParseError { remainder } => AssemblerErrorView::ParseError {
                remainder: remainder@,
            },
            AssemblerError::InsufficientSections => AssemblerErrorView::InsufficientSections,
            AssemblerError::NoSegmentDeclarationFound { instruction } => AssemblerErrorView::NoSegmentDeclarationFound {
                instruction: *instruction,
            },
            AssemblerError::StringConstantDeclaredWithoutLabel { instruction } => AssemblerErrorView::StringConstantDeclaredWithoutLabel {
                instruction: *instruction,
            },
            AssemblerError::SymbolAlreadyDeclared => AssemblerErrorView::SymbolAlreadyDeclared,
            AssemblerError::UnknownDirectiveFound { directive } => AssemblerErrorView::UnknownDirectiveFound {
                directive: directive@,
            },
        }
    }
}

impl Clone for AssemblerError {
    /// A cloned error reads the same.
    fn clone(&self) -> (r: AssemblerError)
        ensures
            r@ == self@,
    {
        match self {
            AssemblerError::ParseError { remainder } => AssemblerError::ParseError {
                remainder: vstd::slice::slice_to_vec(remainder.as_slice()),
            },
            AssemblerError::InsufficientSections => AssemblerError::InsufficientSections,
            AssemblerError::NoSegmentDeclarationFound { instruction } => AssemblerError::NoSegmentDeclarationFound {
                instruction: *instruction,
            },
            AssemblerError::StringConstantDeclaredWithoutLabel { instruction } => AssemblerError::StringConstantDeclaredWithoutLabel {
                instruction: *instruction,
            },
            AssemblerError::SymbolAlreadyDeclared => AssemblerError::SymbolAlreadyDeclared,
            AssemblerError::UnknownDirectiveFound { directive } => AssemblerError::UnknownDirectiveFound {
                directive: vstd::slice::slice_to_vec(directive.as_slice()),
            },
        }
    }
}

impl PartialEq for AssemblerError {
    /// Two errors are equal when they are the same variant with the same
    /// payload.
    fn eq(&self, other: &AssemblerError) -> (r: bool) {
        match (self, other) {
            (
                AssemblerError::ParseError { remainder: a },
                AssemblerError::ParseError { remainder: b },
            ) => crate::token::bytes_eq(a.as_slice(), b.as_slice()),
            (AssemblerError::InsufficientSections, AssemblerError::InsufficientSections) => true,
            (
                AssemblerError::NoSegmentDeclarationFound { instruction: a },
                AssemblerError::NoSegmentDeclarationFound { instruction: b },
            ) => *a == *b,
            (
                AssemblerError::StringConstantDeclaredWithoutLabel { instruction: a },
                AssemblerError::StringConstantDeclaredWithoutLabel { instruction: b },
            ) => *a == *b,
            (AssemblerError::SymbolAlreadyDeclared, AssemblerError::SymbolAlreadyDeclared) => true,
            (
                AssemblerError::UnknownDirectiveFound { directive: a },
                AssemblerError::UnknownDirectiveFound { directive: b },
            ) => crate::token::bytes_eq(a.as_slice(), b.as_slice()),
            _ => false,
        }
    }
}

impl vstd::std_specs::cmp::PartialEqSpecImpl for AssemblerError {
    open spec fn obeys_eq_spec() -> bool {
        true
    }

    open spec fn eq_spec(&self, other: &AssemblerError) -> bool {
        self@ == other@
    }
}

/// The view of an error list.
pub open spec fn errors_view(v: Seq<AssemblerError>) -> Seq<AssemblerErrorView> {
    v.map_values(|e: AssemblerError| e@)
}

/// Copies an error list; the copy reads the same, error for error.
pub fn clone_errors(v: &Vec<AssemblerError>) -> (r: Vec<AssemblerError>)
    ensures
        errors_view(r@) == errors_view(v@),
{
    let mut r: Vec<AssemblerError> = Vec::new();
    let mut i: usize = 0;
    while i < v.len()
        invariant
            i <= v.len(),
            errors_view(r@) =~= errors_view(v@).subrange(0, i as int),
        decreases v.len() - i,
    {
        let ghost pre = r@;
        let e = v[i].clone();
        proof {
            assert(v@[i as int]@ == errors_view(v@)[i as int]);
        }
        r.push(e);
        proof {
            assert(errors_view(r@) =~= errors_view(pre).push(e@));
        }
        i = i + 1;
    }
    proof {
        assert(errors_view(r@) =~= errors_view(v@));
    }
    r
}

} // verus!

//! Token-level parsers for assembly text.
//!
//! The grammar is stated once, as spec functions over byte sequences, and
//! each executable parser is proved to return exactly what the spec parser
//! says. Whitespace is insignificant before every token. A parser returns
//! the position just past what it consumed together with the token, or
//! `None` when the text at that position does not match.
use vstd::prelude::*;

use crate::instruction::{spec_mnemonic_opcode, Opcode};
use crate::token::{Token, TokenView};

verus! {

/// ASCII whitespace: space, tab, line feed, carriage return.
pub open spec fn is_space(b: u8) -> bool {
    b == 32 || b == 9 || b == 10 || b == 13
}

/// ASCII decimal digit.
pub open spec fn is_digit(b: u8) -> bool {
    48 <= b <= 57
}

/// ASCII letter.
pub open spec fn is_alpha(b: u8) -> bool {
    (65 <= b <= 90) || (97 <= b <= 122)
}

/// ASCII letter or digit.
pub open spec fn is_alnum(b: u8) -> bool {
    is_alpha(b) || is_digit(b)
}

/// The first position at or after `pos` that does not hold whitespace.
pub open spec fn ws_end(s: Seq<u8>, pos: int) -> int
    decreases s.len() - pos when 0 <= pos <= s.len()
{
    if pos < s.len() && is_space(s[pos]) {
        ws_end(s, pos + 1)
    } else {
        pos
    }
}

/// The first position at or after `pos` that does not hold a digit.
pub open spec fn digits_end(s: Seq<u8>, pos: int) -> int
    decreases s.len() - pos when 0 <= pos <= s.len()
{
    if pos < s.len() && is_digit(s[pos]) {
        digits_end(s, pos + 1)
    } else {
        pos
    }
}

/// The first position at or after `pos` that does not hold a letter or digit.
pub open spec fn alnum_end(s: Seq<u8>, pos: int) -> int
    decreases s.len() - pos when 0 <= pos <= s.len()
{
    if pos < s.len() && is_alnum(s[pos]) {
        alnum_end(s, pos + 1)
    } else {
        pos
    }
}

/// The first position at or after `pos` that does not hold a letter.
pub open spec fn alpha_end(s: Seq<u8>, pos: int) -> int
    decreases s.len() - pos when 0 <= pos <= s.len()
{
    if pos < s.len() && is_alpha(s[pos]) {
        alpha_end(s, pos + 1)
    } else {
        pos
    }
}

/// The first position at or after `pos` holding a single-quote byte, or the
/// end of the input if there is none.
pub open spec fn quote_end(s: Seq<u8>, pos: int) -> int
    decreases s.len() - pos when 0 <= pos <= s.len()
{
    if pos < s.len() && s[pos] != 39 {
        quote_end(s, pos + 1)
    } else {
        pos
    }
}

/// The value of the decimal digits `s[pos..end]`, read most significant
/// first.
pub open spec fn digits_val(s: Seq<u8>, pos: int, end: int) -> int
    decreases end - pos
{
    if pos >= end {
        0
    } else {
        digits_val(s, pos, end - 1) * 10 + (s[end - 1] - 48)
    }
}

pub proof fn lemma_ws_end_bounds(s: Seq<u8>, pos: int)
    requires
        0 <= pos <= s.len(),
    ensures
        pos <= ws_end(s, pos) <= s.len(),
    decreases s.len() - pos,
{
    if pos < s.len() && is_space(s[pos]) {
        lemma_ws_end_bounds(s, pos + 1);
    }
}

pub proof fn lemma_digits_end_bounds(s: Seq<u8>, pos: int)
    requires
        0 <= pos <= s.len(),
    ensures
        pos <= digits_end(s, pos) <= s.len(),
        forall|j: int| pos <= j < digits_end(s, pos) ==> is_digit(s[j]),
    decreases s.len() - pos,
{
    if pos < s.len() && is_digit(s[pos]) {
        lemma_digits_end_bounds(s, pos + 1);
    }
}

pub proof fn lemma_alnum_end_bounds(s: Seq<u8>, pos: int)
    requires
        0 <= pos <= s.len(),
    ensures
        pos <= alnum_end(s, pos) <= s.len(),
    decreases s.len() - pos,
{
    if pos < s.len() && is_alnum(s[pos]) {
        lemma_alnum_end_bounds(s, pos + 1);
    }
}

pub proof fn lemma_alpha_end_bounds(s: Seq<u8>, pos: int)
    requires
        0 <= pos <= s.len(),
    ensures
        pos <= alpha_end(s, pos) <= s.len(),
    decreases s.len() - pos,
{
    if pos < s.len() && is_alpha(s[pos]) {
        lemma_alpha_end_bounds(s, pos + 1);
    }
}

pub proof fn lemma_quote_end_bounds(s: Seq<u8>, pos: int)
    requires
        0 <= pos <= s.len(),
    ensures
        pos <= quote_end(s, pos) <= s.len(),
    decreases s.len() - pos,
{
    if pos < s.len() && s[pos] != 39 {
        lemma_quote_end_bounds(s, pos + 1);
    }
}

pub proof fn lemma_digits_val_nonneg(s: Seq<u8>, pos: int, end: int)
    requires
        forall|j: int| pos <= j < end ==> is_digit(#[trigger] s[j]),
    ensures
        digits_val(s, pos, end) >= 0,
    decreases end - pos,
{
    if pos < end {
        lemma_digits_val_nonneg(s, pos, end - 1);
    }
}

/// Reading more digits can only keep the value or make it larger.
pub proof fn lemma_digits_val_monotone(s: Seq<u8>, pos: int, e1: int, e2: int)
    requires
        pos <= e1 <= e2,
        forall|j: int| pos <= j < e2 ==> is_digit(#[trigger] s[j]),
    ensures
        digits_val(s, pos, e1) <= digits_val(s, pos, e2),
    decreases e2 - e1,
{
    if e1 < e2 {
        lemma_digits_val_monotone(s, pos, e1, e2 - 1);
        lemma_digits_val_nonneg(s, pos, e2 - 1);
    }
}

/// The view of an executable parser result, for comparing against a spec
/// parser.
pub open spec fn opt_tok_view(r: Option<(usize, Token)>) -> Option<(int, TokenView)> {
    match r {
        Some((p, t)) => Some((p as int, t@)),
        None => None,
    }
}

/// Where the `register` parser succeeds and what it returns: whitespace,
/// a `$`, then decimal digits naming one of the 32 registers.
pub open spec fn spec_register(s: Seq<u8>, pos: int) -> Option<(int, TokenView)> {
    let p = ws_end(s, pos);
    if p < s.len() && s[p] == 36 {
        let e = digits_end(s, p + 1);
        if e > p + 1 && digits_val(s, p + 1, e) <= 31 {
            Some((e, TokenView::Register { reg_num: digits_val(s, p + 1, e) as u8 }))
        } else {
            None
        }
    } else {
        None
    }
}

/// Where the `integer_operand` parser succeeds and what it returns:
/// whitespace, a `#`, then decimal digits that fit in a 32-bit signed value.
pub open spec fn spec_integer_operand(s: Seq<u8>, pos: int) -> Option<(int, TokenView)> {
    let p = ws_end(s, pos);
    if p < s.len() && s[p] == 35 {
        let e = digits_end(s, p + 1);
        if e > p + 1 && digits_val(s, p + 1, e) <= 0x7fff_ffff {
            Some((e, TokenView::IntegerOperand { value: digits_val(s, p + 1, e) as i32 }))
        } else {
            None
        }
    } else {
        None
    }
}

/// Where the `label_declaration` parser succeeds and what it returns:
/// whitespace, a run of letters and digits, then a `:`.
pub open spec fn spec_label_declaration(s: Seq<u8>, pos: int) -> Option<(int, TokenView)> {
    let p = ws_end(s, pos);
    let e = alnum_end(s, p);
    if e > p && e < s.len() && s[e] == 58 {
        Some((e + 1, TokenView::LabelDeclaration { name: s.subrange(p, e) }))
    } else {
        None
    }
}

/// Where the `label_usage` parser succeeds and what it returns: whitespace,
/// an `@`, then a run of letters and digits.
pub open spec fn spec_label_usage(s: Seq<u8>, pos: int) -> Option<(int, TokenView)> {
    let p = ws_end(s, pos);
    if p < s.len() && s[p] == 64 {
        let e = alnum_end(s, p + 1);
        if e > p + 1 {
            Some((e, TokenView::LabelUsage { name: s.subrange(p + 1, e) }))
        } else {
            None
        }
    } else {
        None
    }
}

/// Where the `directive_declaration` parser succeeds and what it returns:
/// whitespace, a `.`, then a run of letters.
pub open spec fn spec_directive_declaration(s: Seq<u8>, pos: int) -> Option<(int, TokenView)> {
    let p = ws_end(s, pos);
    if p < s.len() && s[p] == 46 {
        let e = alpha_end(s, p + 1);
        if e > p + 1 {
            Some((e, TokenView::Directive { name: s.subrange(p + 1, e) }))
        } else {
            None
        }
    } else {
        None
    }
}

/// Where the `irstring` parser succeeds and what it returns: whitespace,
/// a single quote, the content up to the next single quote, and that quote.
pub open spec fn spec_irstring(s: Seq<u8>, pos: int) -> Option<(int, TokenView)> {
    let p = ws_end(s, pos);
    if p < s.len() && s[p] == 39 {
        let e = quote_end(s, p + 1);
        if e < s.len() {
            Some((e + 1, TokenView::IrString { name: s.subrange(p + 1, e) }))
        } else {
            None
        }
    } else {
        None
    }
}

/// Where the `opcode` parser succeeds and what it returns: whitespace, then
/// a run of letters, read as a mnemonic (unknown names read as `IGL`).
pub open spec fn spec_opcode(s: Seq<u8>, pos: int) -> Option<(int, TokenView)> {
    let p = ws_end(s, pos);
    let e = alpha_end(s, p);
    if e > p {
        Some((e, TokenView::Op { code: spec_mnemonic_opcode(s.subrange(p, e)) }))
    } else {
        None
    }
}

/// Where the `operand` parser succeeds and what it returns: the first of
/// integer operand, label usage, register, quoted string that matches.
pub open spec fn spec_operand(s: Seq<u8>, pos: int) -> Option<(int, TokenView)> {
    if spec_integer_operand(s, pos) is Some {
        spec_integer_operand(s, pos)
    } else if spec_label_usage(s, pos) is Some {
        spec_label_usage(s, pos)
    } else if spec_register(s, pos) is Some {
        spec_register(s, pos)
    } else {
        spec_irstring(s, pos)
    }
}

/// A successful token parse always consumes at least one byte beyond the
/// leading whitespace and never runs past the end of the input.
pub proof fn lemma_token_parsers_bounds(s: Seq<u8>, pos: int)
    requires
        0 <= pos <= s.len(),
    ensures
        spec_register(s, pos) matches Some((p2, _)) ==> pos < p2 <= s.len(),
        spec_integer_operand(s, pos) matches Some((p2, _)) ==> pos < p2 <= s.len(),
        spec_label_declaration(s, pos) matches Some((p2, _)) ==> pos < p2 <= s.len(),
        spec_label_usage(s, pos) matches Some((p2, _)) ==> pos < p2 <= s.len(),
        spec_directive_declaration(s, pos) matches Some((p2, _)) ==> pos < p2 <= s.len(),
        spec_irstring(s, pos) matches Some((p2, _)) ==> pos < p2 <= s.len(),
        spec_opcode(s, pos) matches Some((p2, _)) ==> pos < p2 <= s.len(),
        spec_operand(s, pos) matches Some((p2, _)) ==> pos < p2 <= s.len(),
{
    lemma_ws_end_bounds(s, pos);
    let p = ws_end(s, pos);
    if p < s.len() {
        lemma_digits_end_bounds(s, p + 1);
        lemma_alnum_end_bounds(s, p + 1);
        lemma_alpha_end_bounds(s, p + 1);
        lemma_quote_end_bounds(s, p + 1);
    }
    lemma_alnum_end_bounds(s, p);
    lemma_alpha_end_bounds(s, p);
}


/// A quoted-string operand's content is shorter than the span the operand
/// parse consumed: the two quote bytes are consumed besides the content.
pub proof fn lemma_operand_string_len(s: Seq<u8>, pos: int)
    requires
        0 <= pos <= s.len(),
    ensures
        spec_operand(s, pos) matches Some((p2, t)) ==> (t matches TokenView::IrString { name }
            ==> name.len() + 2 <= p2 - pos),
{
    lemma_ws_end_bounds(s, pos);
    let p = ws_end(s, pos);
    if p < s.len() {
        lemma_quote_end_bounds(s, p + 1);
    }
}

/// Consumes whitespace: returns the first position at or after `pos` that
/// holds something other than whitespace.
pub fn skip_ws(s: &[u8], pos: usize) -> (r: usize)
    requires
        pos <= s.len(),
    ensures
        r == ws_end(s@, pos as int),
        pos <= r <= s.len(),
{
    let mut i: usize = pos;
    while i < s.len() && (s[i] == 32 || s[i] == 9 || s[i] == 10 || s[i] == 13)
        invariant
            pos <= i <= s.len(),
            ws_end(s@, pos as int) == ws_end(s@, i as int),
        decreases s.len() - i,
    {
        i = i + 1;
    }
    i
}

/// Returns the first position at or after `pos` that does not hold a digit.
pub fn scan_digits(s: &[u8], pos: usize) -> (r: usize)
    requires
        pos <= s.len(),
    ensures
        r == digits_end(s@, pos as int),
        pos <= r <= s.len(),
{
    let mut i: usize = pos;
    while i < s.len() && 48 <= s[i] && s[i] <= 57
        invariant
            pos <= i <= s.len(),
            digits_end(s@, pos as int) == digits_end(s@, i as int),
        decreases s.len() - i,
    {
        i = i + 1;
    }
    i
}

/// Returns the first position at or after `pos` that does not hold a letter
/// or digit.
pub fn scan_alnum(s: &[u8], pos: usize) -> (r: usize)
    requires
        pos <= s.len(),
    ensures
        r == alnum_end(s@, pos as int),
        pos <= r <= s.len(),
{
    let mut i: usize = pos;
    while i < s.len() && ((65 <= s[i] && s[i] <= 90) || (97 <= s[i] && s[i] <= 122) || (48 <= s[i]
        && s[i] <= 57))
        invariant
            pos <= i <= s.len(),
            alnum_end(s@, pos as int) == alnum_end(s@, i as int),
        decreases s.len() - i,
    {
        i = i + 1;
    }
    i
}

/// Returns the first position at or after `pos` that does not hold a letter.
pub fn scan_alpha(s: &[u8], pos: usize) -> (r: usize)
    requires
        pos <= s.len(),
    ensures
        r == alpha_end(s@, pos as int),
        pos <= r <= s.len(),
{
    let mut i: usize = pos;
    while i < s.len() && ((65 <= s[i] && s[i] <= 90) || (97 <= s[i] && s[i] <= 122))
        invariant
            pos <= i <= s.len(),
            alpha_end(s@, pos as int) == alpha_end(s@, i as int),
        decreases s.len() - i,
    {
        i = i + 1;
    }
    i
}

/// Returns the first position at or after `pos` holding a single quote, or
/// the input's end.
pub fn scan_to_quote(s: &[u8], pos: usize) -> (r: usize)
    requires
        pos <= s.len(),
    ensures
        r == quote_end(s@, pos as int),
        pos <= r <= s.len(),
{
    let mut i: usize = pos;
    while i < s.len() && s[i] != 39
        invariant
            pos <= i <= s.len(),
            quote_end(s@, pos as int) == quote_end(s@, i as int),
        decreases s.len() - i,
    {
        i = i + 1;
    }
    i
}

/// Reads the value of the decimal digits `s[pos..end]`, or reports that the
/// value exceeds `bound`.
fn digits_value_bounded(s: &[u8], pos: usize, end: usize, bound: u64) -> (r: Option<u64>)
    requires
        pos <= end <= s.len(),
        bound <= 0xffff_ffff,
        forall|j: int| pos <= j < end ==> is_digit(#[trigger] s@[j]),
    ensures
        match r {
            Some(v) => v == digits_val(s@, pos as int, end as int) && v <= bound,
            None => digits_val(s@, pos as int, end as int) > bound,
        },
{
    let mut acc: u64 = 0;
    let mut i: usize = pos;
    proof {
        lemma_digits_val_nonneg(s@, pos as int, end as int);
    }
    while i < end
        invariant
            pos <= i <= end <= s.len(),
            bound <= 0xffff_ffff,
            acc <= bound,
            acc == digits_val(s@, pos as int, i as int),
            forall|j: int| pos <= j < end ==> is_digit(#[trigger] s@[j]),
        decreases end - i,
    {
        let d = s[i];
        let next = acc * 10 + (d - 48) as u64;
        proof {
            lemma_digits_val_nonneg(s@, pos as int, i as int);
        }
        if next > bound {
            proof {
                lemma_digits_val_monotone(s@, pos as int, i as int + 1, end as int);
            }
            return None;
        }
        acc = next;
        i = i + 1;
    }
    Some(acc)
}

/// Parses a register operand, `$` followed by a register number below 32.
pub fn register(s: &[u8], pos: usize) -> (r: Option<(usize, Token)>)
    requires
        pos <= s.len(),
    ensures
        opt_tok_view(r) == spec_register(s@, pos as int),
{
    let p = skip_ws(s, pos);
    if p < s.len() && s[p] == 36 {
        let e = scan_digits(s, p + 1);
        proof {
            lemma_digits_end_bounds(s@, p + 1);
        }
        if e > p + 1 {
            match digits_value_bounded(s, p + 1, e, 31) {
                Some(v) => Some((e, Token::Register { reg_num: v as u8 })),
                None => None,
            }
        } else {
            None
        }
    } else {
        None
    }
}

/// Parses an integer operand, `#` followed by a decimal value that fits in
/// an `i32`.
pub fn integer_operand(s: &[u8], pos: usize) -> (r: Option<(usize, Token)>)
    requires
        pos <= s.len(),
    ensures
        opt_tok_view(r) == spec_integer_operand(s@, pos as int),
{
    let p = skip_ws(s, pos);
    if p < s.len() && s[p] == 35 {
        let e = scan_digits(s, p + 1);
        proof {
            lemma_digits_end_bounds(s@, p + 1);
        }
        if e > p + 1 {
            match digits_value_bounded(s, p + 1, e, 0x7fff_ffff) {
                Some(v) => Some((e, Token::IntegerOperand { value: v as i32 })),
                None => None,
            }
        } else {
            None
        }
    } else {
        None
    }
}

/// Parses a label declaration: a name followed by `:`.
pub fn label_declaration(s: &[u8], pos: usize) -> (r: Option<(usize, Token)>)
    requires
        pos <= s.len(),
    ensures
        opt_tok_view(r) == spec_label_declaration(s@, pos as int),
{
    let p = skip_ws(s, pos);
    let e = scan_alnum(s, p);
    if e > p && e < s.len() && s[e] == 58 {
        let name = vstd::slice::slice_to_vec(vstd::slice::slice_subrange(s, p, e));
        Some((e + 1, Token::LabelDeclaration { name }))
    } else {
        None
    }
}

/// Parses a label use: `@` followed by a name.
pub fn label_usage(s: &[u8], pos: usize) -> (r: Option<(usize, Token)>)
    requires
        pos <= s.len(),
    ensures
        opt_tok_view(r) == spec_label_usage(s@, pos as int),
{
    let p = skip_ws(s, pos);
    if p < s.len() && s[p] == 64 {
        let e = scan_alnum(s, p + 1);
        if e > p + 1 {
            let name = vstd::slice::slice_to_vec(vstd::slice::slice_subrange(s, p + 1, e));
            Some((e, Token::LabelUsage { name }))
        } else {
            None
        }
    } else {
        None
    }
}

/// Parses a directive name: `.` followed by letters.
pub fn directive_declaration(s: &[u8], pos: usize) -> (r: Option<(usize, Token)>)
    requires
        pos <= s.len(),
    ensures
        opt_tok_view(r) == spec_directive_declaration(s@, pos as int),
{
    let p = skip_ws(s, pos);
    if p < s.len() && s[p] == 46 {
        let e = scan_alpha(s, p + 1);
        if e > p + 1 {
            let name = vstd::slice::slice_to_vec(vstd::slice::slice_subrange(s, p + 1, e));
            Some((e, Token::Directive { name }))
        } else {
            None
        }
    } else {
        None
    }
}

/// Parses a single-quoted string constant.
pub fn irstring(s: &[u8], pos: usize) -> (r: Option<(usize, Token)>)
    requires
        pos <= s.len(),
    ensures
        opt_tok_view(r) == spec_irstring(s@, pos as int),
{
    let p = skip_ws(s, pos);
    if p < s.len() && s[p] == 39 {
        let e = scan_to_quote(s, p + 1);
        if e < s.len() {
            let name = vstd::slice::slice_to_vec(vstd::slice::slice_subrange(s, p + 1, e));
            Some((e + 1, Token::IrString { name }))
        } else {
            None
        }
    } else {
        None
    }
}

/// Parses an opcode mnemonic: a run of letters, matched without regard to
/// letter case; unknown names read as `IGL`.
pub fn opcode(s: &[u8], pos: usize) -> (r: Option<(usize, Token)>)
    requires
        pos <= s.len(),
    ensures
        opt_tok_view(r) == spec_opcode(s@, pos as int),
{
    let p = skip_ws(s, pos);
    let e = scan_alpha(s, p);
    if e > p {
        let word = vstd::slice::slice_subrange(s, p, e);
        let code = Opcode::from_mnemonic(word);
        Some((e, Token::Op { code }))
    } else {
        None
    }
}

/// Parses exactly the word `load` at `pos`, with no leading whitespace, as
/// the `LOAD` opcode.
pub fn opcode_load(s: &[u8], pos: usize) -> (r: Option<(usize, Token)>)
    requires
        pos <= s.len(),
    ensures
        opt_tok_view(r) == spec_opcode_load(s@, pos as int),
{
    if s.len() - pos >= 4 && s[pos] == 108 && s[pos + 1] == 111 && s[pos + 2] == 97 && s[pos + 3]
        == 100 {
        Some((pos + 4, Token::Op { code: Opcode::LOAD }))
    } else {
        None
    }
}

/// Where the `opcode_load` parser succeeds: the bytes `load` stand exactly
/// at `pos`.
pub open spec fn spec_opcode_load(s: Seq<u8>, pos: int) -> Option<(int, TokenView)> {
    if pos + 4 <= s.len() && s[pos] == 108 && s[pos + 1] == 111 && s[pos + 2] == 97 && s[pos + 3]
        == 100 {
        Some((pos + 4, TokenView::Op { code: Opcode::LOAD }))
    } else {
        None
    }
}

/// Parses one operand: an integer, a label use, a register, or a quoted
/// string, tried in that order.
pub fn operand(s: &[u8], pos: usize) -> (r: Option<(usize, Token)>)
    requires
        pos <= s.len(),
    ensures
        opt_tok_view(r) == spec_operand(s@, pos as int),
{
    let r = integer_operand(s, pos);
    if r.is_some() {
        return r;
    }
    let r = label_usage(s, pos);
    if r.is_some() {
        return r;
    }
    let r = register(s, pos);
    if r.is_some() {
        return r;
    }
    irstring(s, pos)
}

} // verus!

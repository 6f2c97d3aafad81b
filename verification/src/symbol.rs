//! Symbols and the symbol table: the name-to-offset mapping that the
//! assembler builds in its first phase and reads in its second.
use vstd::prelude::*;

verus! {

/// What kind of thing a symbol names.
#[derive(Debug, Clone, Copy, PartialEq, Eq, Structural)]
pub enum SymbolType {
    Label,
    Integer,
    IrString,
}

/// One symbol: a name, the offset it resolved to (if it has), and its kind.
#[derive(Debug)]
pub struct Symbol {
    name: Vec<u8>,
    offset: Option<u32>,
    symbol_type: SymbolType,
}

/// The view of a symbol: its name as a sequence, its offset, its kind.
pub ghost struct SymbolView {
    pub name: Seq<u8>,
    pub offset: Option<u32>,
    pub symbol_type: SymbolType,
}

impl View for Symbol {
    type V = SymbolView;

    closed spec fn view(&self) -> SymbolView {
        SymbolView { name: self.name@, offset: self.offset, symbol_type: self.symbol_type }
    }
}

impl Clone for Symbol {
    /// A cloned symbol has the same name bytes, offset and kind.
    fn clone(&self) -> (r: Symbol)
        ensures
            r@ == self@,
    {
        Symbol {
            name: vstd::slice::slice_to_vec(self.name.as_slice()),
            offset: self.offset,
            symbol_type: self.symbol_type,
        }
    }
}

impl Symbol {
    /// A symbol declared but not yet resolved: it has no offset.
    pub fn new(name: Vec<u8>, symbol_type: SymbolType) -> (r: Symbol)
        ensures
            r@ == (SymbolView { name: name@, offset: None, symbol_type }),
    {
        Symbol { name, symbol_type, offset: None }
    }

    /// A symbol that is resolved from the start.
    pub fn new_with_offset(name: Vec<u8>, symbol_type: SymbolType, offset: u32) -> (r: Symbol)
        ensures
            r@ == (SymbolView { name: name@, offset: Some(offset), symbol_type }),
    {
        Symbol { name, symbol_type, offset: Some(offset) }
    }
}

/// The offset of the first symbol of that name, `None` if no symbol has the
/// name or the first one of the name is unresolved.
pub open spec fn spec_symbol_value(syms: Seq<SymbolView>, name: Seq<u8>) -> Option<u32>
    decreases syms.len(),
{
    if syms.len() == 0 {
        None
    } else if syms[0].name == name {
        syms[0].offset
    } else {
        spec_symbol_value(syms.drop_first(), name)
    }
}

/// Whether some symbol of the table bears the name.
pub open spec fn spec_has_symbol(syms: Seq<SymbolView>, name: Seq<u8>) -> bool {
    exists|i: int| 0 <= i < syms.len() && syms[i].name == name
}

/// The table with the first symbol of the name resolved to `offset`; the
/// table unchanged if no symbol bears the name.
pub open spec fn spec_set_symbol_offset(syms: Seq<SymbolView>, name: Seq<u8>, offset: u32) -> Seq<
    SymbolView,
>
    decreases syms.len(),
{
    if syms.len() == 0 {
        syms
    } else if syms[0].name == name {
        syms.update(
            0,
            SymbolView { name: syms[0].name, offset: Some(offset), symbol_type: syms[0].symbol_type },
        )
    } else {
        seq![syms[0]] + spec_set_symbol_offset(syms.drop_first(), name, offset)
    }
}

/// Setting an offset keeps the table's length, touches no name and no kind,
/// and resolves the first symbol of the name when there is one.
pub proof fn lemma_set_symbol_offset_shape(syms: Seq<SymbolView>, name: Seq<u8>, offset: u32)
    ensures
        spec_set_symbol_offset(syms, name, offset).len() == syms.len(),
        forall|i: int| 0 <= i < syms.len() ==> {
            let r = #[trigger] spec_set_symbol_offset(syms, name, offset)[i];
            r.name == syms[i].name && r.symbol_type == syms[i].symbol_type && (r.offset
                == syms[i].offset || (syms[i].name == name && r.offset == Some(offset)))
        },
        !spec_has_symbol(syms, name) ==> spec_set_symbol_offset(syms, name, offset) == syms,
    decreases syms.len(),
{
    if syms.len() > 0 {
        if syms[0].name == name {
        } else {
            lemma_set_symbol_offset_shape(syms.drop_first(), name, offset);
            let r = spec_set_symbol_offset(syms, name, offset);
            let rr = spec_set_symbol_offset(syms.drop_first(), name, offset);
            assert(forall|i: int| 1 <= i < syms.len() ==> r[i] == rr[i - 1]);
            assert(forall|i: int| 0 <= i < syms.len() - 1 ==> syms.drop_first()[i] == syms[i + 1]);
            if !spec_has_symbol(syms, name) {
                assert(!spec_has_symbol(syms.drop_first(), name)) by {
                    if spec_has_symbol(syms.drop_first(), name) {
                        let i = choose|i: int|
                            0 <= i < syms.drop_first().len() && syms.drop_first()[i].name == name;
                        assert(syms[i + 1].name == name);
                    }
                }
                assert(r =~= syms);
            }
        }
    }
}


/// Resolving a name that the table holds makes a later lookup of that name
/// answer exactly the offset that was set.
pub proof fn lemma_set_symbol_offset_value(syms: Seq<SymbolView>, name: Seq<u8>, offset: u32)
    requires
        spec_has_symbol(syms, name),
    ensures
        spec_symbol_value(spec_set_symbol_offset(syms, name, offset), name) == Some(offset),
    decreases syms.len(),
{
    let r = spec_set_symbol_offset(syms, name, offset);
    if syms.len() > 0 {
        if syms[0].name == name {
            assert(r[0].name == name && r[0].offset == Some(offset));
        } else {
            assert(!spec_has_symbol(syms.drop_first(), name) ==> !spec_has_symbol(syms, name))
                by {
                if spec_has_symbol(syms, name) {
                    let i = choose|i: int| 0 <= i < syms.len() && syms[i].name == name;
                    assert(syms.drop_first()[i - 1].name == name);
                }
            }
            lemma_set_symbol_offset_value(syms.drop_first(), name, offset);
            assert(r.drop_first() =~= spec_set_symbol_offset(syms.drop_first(), name, offset));
            assert(r[0] == syms[0]);
        }
    }
}

/// The symbol table: the symbols in the order they were added.
#[derive(Debug)]
pub struct SymbolTable {
    pub symbols: Vec<Symbol>,
}

impl View for SymbolTable {
    type V = Seq<SymbolView>;

    open spec fn view(&self) -> Seq<SymbolView> {
        self.symbols@.map_values(|s: Symbol| s@)
    }
}

impl SymbolTable {
    /// An empty table.
    pub fn new() -> (r: SymbolTable)
        ensures
            r@ == Seq::<SymbolView>::empty(),
    {
        let r = SymbolTable { symbols: Vec::new() };
        proof {
            assert(r@ =~= Seq::<SymbolView>::empty());
        }
        r
    }

    /// Appends a symbol to the table. Nothing is checked here: keeping names
    /// unique is the caller's task.
    pub fn add_symbol(&mut self, s: Symbol)
        ensures
            final (self)@ == old(self)@.push(s@),
    {
        let ghost pre = self@;
        self.symbols.push(s);
        proof {
            assert(self@ =~= pre.push(s@));
        }
    }

    /// The resolved offset of the first symbol of that name: `None` when the
    /// name is unknown or still unresolved.
    pub fn symbol_value(&self, name: &[u8]) -> (r: Option<u32>)
        ensures
            r == spec_symbol_value(self@, name@),
    {
        let n = self.symbols.len();
        let mut i: usize = 0;
        proof {
            assert(self@.skip(0) =~= self@);
        }
        while i < n
            invariant
                i <= n,
                n == self.symbols.len(),
                spec_symbol_value(self@, name@) == spec_symbol_value(
                    self@.skip(i as int),
                    name@,
                ),
            decreases n - i,
        {
            if crate::token::bytes_eq(self.symbols[i].name.as_slice(), name) {
                proof {
                    assert(self@[i as int] == self.symbols@[i as int]@);
                    assert(self@.skip(i as int)[0] == self@[i as int]);
                }
                return self.symbols[i].offset;
            }
            proof {
                assert(self@[i as int] == self.symbols@[i as int]@);
                assert(self@.skip(i as int)[0] == self@[i as int]);
                assert(self@.skip(i as int).drop_first() =~= self@.skip(i as int + 1));
            }
            i = i + 1;
        }
        proof {
            assert(self@.skip(n as int).len() == 0);
        }
        None
    }

    /// Whether the table holds a symbol of that name.
    pub fn has_symbol(&self, name: &[u8]) -> (r: bool)
        ensures
            r == spec_has_symbol(self@, name@),
    {
        let n = self.symbols.len();
        let mut i: usize = 0;
        while i < n
            invariant
                i <= n,
                n == self.symbols.len(),
                forall|j: int| 0 <= j < i ==> self@[j].name != name@,
            decreases n - i,
        {
            if crate::token::bytes_eq(self.symbols[i].name.as_slice(), name) {
                proof {
                    assert(self@[i as int] == self.symbols@[i as int]@);
                    assert(self@[i as int].name == name@);
                }
                return true;
            }
            proof {
                assert(self@[i as int] == self.symbols@[i as int]@);
            }
            i = i + 1;
        }
        false
    }

    /// Resolves the first symbol of that name to `offset`; reports whether
    /// a symbol of the name was found.
    pub fn set_symbol_offset(&mut self, name: &[u8], offset: u32) -> (r: bool)
        ensures
            final (self)@ == spec_set_symbol_offset(old(self)@, name@, offset),
            r == spec_has_symbol(old(self)@, name@),
    {
        let ghost orig = self@;
        let n = self.symbols.len();
        let mut i: usize = 0;
        while i < n
            invariant
                i <= n,
                n == self.symbols.len(),
                orig == old(self)@,
                self@ == orig,
                forall|j: int| 0 <= j < i ==> orig[j].name != name@,
            decreases n - i,
        {
            if crate::token::bytes_eq(self.symbols[i].name.as_slice(), name) {
                proof {
                    assert(orig[i as int] == self.symbols@[i as int]@);
                    assert(orig[i as int].name == name@);
                }
                let ghost upd = SymbolView {
                    name: orig[i as int].name,
                    offset: Some(offset),
                    symbol_type: orig[i as int].symbol_type,
                };
                let new_name = vstd::slice::slice_to_vec(self.symbols[i].name.as_slice());
                let kind = self.symbols[i].symbol_type;
                let ghost vec_pre = self.symbols@;
                self.symbols[i] = Symbol { name: new_name, offset: Some(offset), symbol_type: kind };
                proof {
                    assert(self.symbols@[i as int]@ == upd);
                    assert(self@ =~= orig.update(i as int, upd)) by {
                        assert forall|j: int| 0 <= j < orig.len() implies self@[j] == orig.update(
                            i as int,
                            upd,
                        )[j] by {
                            assert(self@[j] == self.symbols@[j]@);
                            if j != i {
                                assert(self.symbols@[j] == vec_pre[j]);
                                assert(orig[j] == vec_pre[j]@);
                            }
                        }
                    }
                    lemma_set_symbol_offset_prefix(orig, name@, offset, i as int);
                }
                return true;
            }
            proof {
                assert(orig[i as int] == self.symbols@[i as int]@);
            }
            i = i + 1;
        }
        proof {
            assert(!spec_has_symbol(orig, name@));
            lemma_set_symbol_offset_shape(orig, name@, offset);
        }
        false
    }
}

/// When the first `i` symbols do not bear the name and symbol `i` does,
/// setting the offset updates exactly entry `i`.
proof fn lemma_set_symbol_offset_prefix(syms: Seq<SymbolView>, name: Seq<u8>, offset: u32, i: int)
    requires
        0 <= i < syms.len(),
        forall|j: int| 0 <= j < i ==> syms[j].name != name,
        syms[i].name == name,
    ensures
        spec_set_symbol_offset(syms, name, offset) == syms.update(
            i,
            SymbolView { name: syms[i].name, offset: Some(offset), symbol_type: syms[i].symbol_type },
        ),
    decreases i,
{
    if i == 0 {
    } else {
        assert(forall|j: int| 0 <= j < i - 1 ==> syms.drop_first()[j] == syms[j + 1]);
        lemma_set_symbol_offset_prefix(syms.drop_first(), name, offset, i - 1);
        let upd = SymbolView {
            name: syms[i].name,
            offset: Some(offset),
            symbol_type: syms[i].symbol_type,
        };
        assert(syms.drop_first()[i - 1] == syms[i]);
        assert(spec_set_symbol_offset(syms, name, offset) =~= syms.update(i, upd)) by {
            assert(spec_set_symbol_offset(syms, name, offset) == seq![syms[0]]
                + spec_set_symbol_offset(syms.drop_first(), name, offset));
            assert(spec_set_symbol_offset(syms.drop_first(), name, offset) == syms.drop_first().update(
                i - 1,
                upd,
            ));
            assert(forall|k: int| 0 <= k < syms.len() - 1 ==> #[trigger] syms.drop_first().update(
                i - 1,
                upd,
            )[k] == syms.update(i, upd)[k + 1]);
        }
    }
}

} // verus!

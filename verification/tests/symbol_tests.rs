use rsvm::symbol::{Symbol, SymbolTable, SymbolType};

#[test]
fn symbol_test_symbol_table() {
    let mut symbol_table = SymbolTable::new();
    let new_symbol = Symbol::new_with_offset(b"test".to_vec(), SymbolType::Label, 12);
    symbol_table.add_symbol(new_symbol);
    assert_eq!(symbol_table.symbols.len(), 1);

    let v = symbol_table.symbol_value(b"test");
    assert!(v.is_some());
    assert_eq!(v.unwrap(), 12);

    let v = symbol_table.symbol_value(b"No-Exist");
    assert!(v.is_none());
}

#[test]
fn test_unresolved_symbol_value() {
    // A declared but unresolved symbol answers a lookup with nothing.
    let mut symbol_table = SymbolTable::new();
    symbol_table.add_symbol(Symbol::new(b"pending".to_vec(), SymbolType::Label));
    assert_eq!(symbol_table.symbol_value(b"pending"), None);
    assert!(symbol_table.has_symbol(b"pending"));
    assert!(!symbol_table.has_symbol(b"missing"));
}

#[test]
fn test_set_symbol_offset() {
    let mut symbol_table = SymbolTable::new();
    symbol_table.add_symbol(Symbol::new(b"here".to_vec(), SymbolType::Label));
    assert!(symbol_table.set_symbol_offset(b"here", 42));
    assert_eq!(symbol_table.symbol_value(b"here"), Some(42));
    assert!(!symbol_table.set_symbol_offset(b"gone", 7));
}

//! A register-based bytecode virtual machine with a two-phase assembler,
//! a thread-per-task scheduler, and a REPL front-end core.
//!
//! Assembly text is parsed into instruction records, assembled into a binary
//! program image (magic prefix, padded header, code-start offset, read-only
//! data, code), and executed by a fetch-decode-execute interpreter. Each
//! public operation carries a contract that pins down its result.
pub mod assembler;
pub mod errors;
pub mod external;
pub mod instruction;
pub mod instruction_parser;
pub mod parser;
pub mod repl;
pub mod scheduler;
pub mod symbol;
pub mod token;
pub mod vm;

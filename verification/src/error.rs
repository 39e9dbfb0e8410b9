use vstd::prelude::*;

verus! {

/// Everything that can go wrong while installing a hook or resolving a
/// symbol. Memory-related variants carry the operating system's message;
/// the engine itself only ever reports `NullPointer`, `DisassemblyFailed`,
/// `InsufficientSpace` and `HookFailed`.
#[derive(Debug)]
pub enum SubstrateError {
    MemoryProtection(String),
    MemoryMap(String),
    InvalidSymbol,
    SymbolNotFound(String),
    LibraryNotFound(String),
    ElfParsing(String),
    InvalidInstruction(usize),
    DisassemblyFailed,
    HookFailed(String),
    InsufficientSpace,
    Io(String),
    NullPointer,
    FileNotFound(String),
    ParseError(String),
}

} // verus!

//! Inline function-hooking engine: prologue rewriting and trampoline
//! construction for x86-64, A32 (ARM), Thumb and A64 (AArch64).
//!
//! The library computes everything a hook installation needs — the patch
//! bytes, the number of displaced prologue bytes, and the relocated
//! trampoline image — from plain values: the target and replacement
//! addresses and the bytes of the target's prologue. Reading and writing
//! process memory, changing page protection and flushing the instruction
//! cache are left to the embedding program.

pub mod arch;
pub mod debug;
pub mod disasm;
pub mod error;
pub mod hook;
pub mod symbol;
pub mod utils;

use vstd::prelude::*;

verus! {

/// Process-wide advisory debug switch, held by the embedder.
pub struct DebugFlag {
    pub enabled: bool,
}

/// Turns the advisory debug switch on.
pub fn set_debug(flag: &mut DebugFlag, enabled: bool)
    ensures
        final(flag).enabled == enabled,
{
    flag.enabled = enabled;
}

/// Reads the advisory debug switch.
pub fn is_debug(flag: &DebugFlag) -> (r: bool)
    ensures
        r == flag.enabled,
{
    flag.enabled
}

} // verus!

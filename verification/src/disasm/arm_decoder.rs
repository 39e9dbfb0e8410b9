//! Shape predicates over raw ARM and Thumb instruction encodings, and the
//! Thumb 16/32-bit length oracle.
//!
//! Each predicate identifies one class of PC-relative encoding the
//! rewriters must relocate; anything they reject is safe to copy
//! verbatim.

use vstd::prelude::*;

verus! {

/// An A32 word is a PC-relative single data transfer: bits 27:24 are
/// `0100`, the condition is not the unconditional-extension `1111`, and
/// the base register is PC.
pub open spec fn spec_is_arm_pc_relative(instruction: u32) -> bool {
    (instruction & 0x0c000000) == 0x04000000 && (instruction & 0xf0000000) != 0xf0000000 && (
    instruction & 0x000f0000) == 0x000f0000
}

pub fn is_arm_pc_relative(instruction: u32) -> (r: bool)
    ensures
        r == spec_is_arm_pc_relative(instruction),
{
    (instruction & 0x0c000000) == 0x04000000 && (instruction & 0xf0000000) != 0xf0000000 && (
    instruction & 0x000f0000) == 0x000f0000
}

/// A Thumb halfword opens a 32-bit encoding: bits 15:13 are `111` and
/// bits 12:11 are not `00`.
pub open spec fn spec_is_thumb_32bit(instruction: u16) -> bool {
    (instruction & 0xe000) == 0xe000 && (instruction & 0x1800) != 0x0000
}

pub fn is_thumb_32bit(instruction: u16) -> (r: bool)
    ensures
        r == spec_is_thumb_32bit(instruction),
{
    (instruction & 0xe000) == 0xe000 && (instruction & 0x1800) != 0x0000
}

/// `CBZ`/`CBNZ` (T16).
pub open spec fn spec_is_thumb_pc_relative_cbz(instruction: u16) -> bool {
    (instruction & 0xf500) == 0xb100
}

pub fn is_thumb_pc_relative_cbz(instruction: u16) -> (r: bool)
    ensures
        r == spec_is_thumb_pc_relative_cbz(instruction),
{
    (instruction & 0xf500) == 0xb100
}

/// Conditional branch `B<cond>` (T16), conditions `1110`/`1111` excluded.
pub open spec fn spec_is_thumb_pc_relative_b(instruction: u16) -> bool {
    (instruction & 0xf000) == 0xd000 && (instruction & 0x0e00) != 0x0e00
}

pub fn is_thumb_pc_relative_b(instruction: u16) -> (r: bool)
    ensures
        r == spec_is_thumb_pc_relative_b(instruction),
{
    (instruction & 0xf000) == 0xd000 && (instruction & 0x0e00) != 0x0e00
}

/// `B`/`B.W` (T32): two halfwords.
pub open spec fn spec_is_thumb2_pc_relative_b(h0: u16, h1: u16) -> bool {
    (h0 & 0xf800) == 0xf000 && ((h1 & 0xd000) == 0x9000 || (h1 & 0xd000) == 0x8000) && (h0
        & 0x0380) != 0x0380
}

pub fn is_thumb2_pc_relative_b(instructions: &[u16]) -> (r: bool)
    ensures
        r == (instructions@.len() >= 2 && spec_is_thumb2_pc_relative_b(
            instructions@[0],
            instructions@[1],
        )),
{
    if instructions.len() < 2 {
        return false;
    }
    (instructions[0] & 0xf800) == 0xf000 && ((instructions[1] & 0xd000) == 0x9000 || (
    instructions[1] & 0xd000) == 0x8000) && (instructions[0] & 0x0380) != 0x0380
}

/// `BL`/`BLX` (T32): two halfwords.
pub open spec fn spec_is_thumb_pc_relative_bl(h0: u16, h1: u16) -> bool {
    (h0 & 0xf800) == 0xf000 && ((h1 & 0xd000) == 0xd000 || (h1 & 0xd001) == 0xc000)
}

pub fn is_thumb_pc_relative_bl(instructions: &[u16]) -> (r: bool)
    ensures
        r == (instructions@.len() >= 2 && spec_is_thumb_pc_relative_bl(
            instructions@[0],
            instructions@[1],
        )),
{
    if instructions.len() < 2 {
        return false;
    }
    (instructions[0] & 0xf800) == 0xf000 && ((instructions[1] & 0xd000) == 0xd000 || (
    instructions[1] & 0xd001) == 0xc000)
}

/// `LDR rd, [PC, #imm8]` (T16).
pub open spec fn spec_is_thumb_pc_relative_ldr(instruction: u16) -> bool {
    (instruction & 0xf800) == 0x4800
}

pub fn is_thumb_pc_relative_ldr(instruction: u16) -> (r: bool)
    ensures
        r == spec_is_thumb_pc_relative_ldr(instruction),
{
    (instruction & 0xf800) == 0x4800
}

/// `ADD rd, PC` (T16).
pub open spec fn spec_is_thumb_pc_relative_add(instruction: u16) -> bool {
    (instruction & 0xff78) == 0x4478
}

pub fn is_thumb_pc_relative_add(instruction: u16) -> (r: bool)
    ensures
        r == spec_is_thumb_pc_relative_add(instruction),
{
    (instruction & 0xff78) == 0x4478
}

/// `LDR.W rt, [PC, #imm12]` (T32).
pub open spec fn spec_is_thumb_pc_relative_ldrw(instruction: u16) -> bool {
    (instruction & 0xff7f) == 0xf85f
}

pub fn is_thumb_pc_relative_ldrw(instruction: u16) -> (r: bool)
    ensures
        r == spec_is_thumb_pc_relative_ldrw(instruction),
{
    (instruction & 0xff7f) == 0xf85f
}

/// Width in bytes of the Thumb instruction opened by `instruction`.
pub fn get_thumb_instruction_width(instruction: u16) -> (r: usize)
    ensures
        r == (if spec_is_thumb_32bit(instruction) {
            4int
        } else {
            2int
        }),
{
    if is_thumb_32bit(instruction) {
        4
    } else {
        2
    }
}

/// Width in bytes of an A32 instruction: always four.
pub fn get_arm_instruction_width(_addr: u64) -> (r: usize)
    ensures
        r == 4,
{
    4
}

/// Width of the instruction at `addr`: A32 when the low bit is clear,
/// otherwise the Thumb width of `halfword` found there.
pub fn get_instruction_width(addr: u64, halfword: u16) -> (r: usize)
    ensures
        (addr & 0x1) == 0 ==> r == 4,
        (addr & 0x1) != 0 ==> r == (if spec_is_thumb_32bit(halfword) {
            4int
        } else {
            2int
        }),
{
    if (addr & 0x1) == 0 {
        get_arm_instruction_width(addr)
    } else {
        get_thumb_instruction_width(halfword)
    }
}

} // verus!

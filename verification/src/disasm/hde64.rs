//! Table-driven length disassembler for x86-64.
//!
//! Given a byte position in a code buffer the decoder consumes one
//! instruction: up to sixteen legacy prefixes, an optional REX byte, one or
//! two opcode bytes, optional ModR/M and SIB bytes, then immediate and
//! displacement fields whose widths a static opcode-class table dictates.
//! It fills an instruction descriptor and returns the instruction length.
//! Unrecognized opcodes are flagged as errors but still given a length so
//! a caller can resume at the next instruction.

use vstd::prelude::*;

verus! {

pub const F_MODRM: u32 = 0x00000001;

pub const F_SIB: u32 = 0x00000002;

pub const F_IMM8: u32 = 0x00000004;

pub const F_IMM16: u32 = 0x00000008;

pub const F_IMM32: u32 = 0x00000010;

pub const F_IMM64: u32 = 0x00000020;

pub const F_DISP8: u32 = 0x00000040;

pub const F_DISP16: u32 = 0x00000080;

pub const F_DISP32: u32 = 0x00000100;

pub const F_RELATIVE: u32 = 0x00000200;

pub const F_ERROR: u32 = 0x00001000;

pub const F_ERROR_OPCODE: u32 = 0x00002000;

pub const F_ERROR_LENGTH: u32 = 0x00004000;

pub const F_ERROR_LOCK: u32 = 0x00008000;

pub const F_ERROR_OPERAND: u32 = 0x00010000;

pub const F_PREFIX_REPNZ: u32 = 0x01000000;

pub const F_PREFIX_REPX: u32 = 0x02000000;

pub const F_PREFIX_REP: u32 = 0x03000000;

pub const F_PREFIX_66: u32 = 0x04000000;

pub const F_PREFIX_67: u32 = 0x08000000;

pub const F_PREFIX_LOCK: u32 = 0x10000000;

pub const F_PREFIX_SEG: u32 = 0x20000000;

pub const F_PREFIX_REX: u32 = 0x40000000;

const C_MODRM: u8 = 0x01;

const C_IMM8: u8 = 0x02;

const C_IMM16: u8 = 0x04;

const C_IMM_P66: u8 = 0x10;

const C_REL8: u8 = 0x20;

const C_REL32: u8 = 0x40;

const C_GROUP: u8 = 0x80;

const C_ERROR: u8 = 0xff;

const PRE_NONE: u8 = 0x01;

const PRE_F2: u8 = 0x02;

const PRE_F3: u8 = 0x04;

const PRE_66: u8 = 0x08;

const PRE_67: u8 = 0x10;

const PRE_LOCK: u8 = 0x20;

const PRE_SEG: u8 = 0x40;

const DELTA_OPCODES: usize = 0x4a;

const DELTA_FPU_REG: usize = 0xfd;

const DELTA_FPU_MODRM: usize = 0x104;

const DELTA_PREFIXES: usize = 0x13c;

const DELTA_OP_LOCK_OK: usize = 0x1ae;

const DELTA_OP2_LOCK_OK: usize = 0x1c6;

const DELTA_OP_ONLY_MEM: usize = 0x1d8;

const DELTA_OP2_ONLY_MEM: usize = 0x1e7;

const TABLE_LEN: usize = 529;

/// Descriptor of one decoded instruction: length, prefix bytes, REX
/// fields, opcodes, ModR/M and SIB decompositions, immediate and
/// displacement values, and classification flags.
#[derive(Clone, Copy, Debug)]
pub struct Hde64s {
    pub len: u8,
    pub p_rep: u8,
    pub p_lock: u8,
    pub p_seg: u8,
    pub p_66: u8,
    pub p_67: u8,
    pub rex: u8,
    pub rex_w: u8,
    pub rex_r: u8,
    pub rex_x: u8,
    pub rex_b: u8,
    pub opcode: u8,
    pub opcode2: u8,
    pub modrm: u8,
    pub modrm_mod: u8,
    pub modrm_reg: u8,
    pub modrm_rm: u8,
    pub sib: u8,
    pub sib_scale: u8,
    pub sib_index: u8,
    pub sib_base: u8,
    pub imm: u64,
    pub disp: u32,
    pub flags: u32,
}

/// The opcode classification table: row indices for each opcode quartet,
/// class rows, opcode-group entries, two-byte-opcode prefix rules, FPU
/// validity masks, LOCK-admissibility lists and memory-only operand lists.
#[verifier::opaque]
pub open spec fn hde64_table() -> Seq<u8> {
    seq![
        0xa5u8, 0xaau8, 0xa5u8, 0xb8u8, 0xa5u8, 0xaau8, 0xa5u8, 0xaau8, 0xa5u8, 0xb8u8, 0xa5u8, 0xb8u8, 0xa5u8, 0xb8u8, 0xa5u8, 0xb8u8,
        0xc0u8, 0xc0u8, 0xc0u8, 0xc0u8, 0xc0u8, 0xc0u8, 0xc0u8, 0xc0u8, 0xacu8, 0xc0u8, 0xccu8, 0xc0u8, 0xa1u8, 0xa1u8, 0xa1u8, 0xa1u8,
        0xb1u8, 0xa5u8, 0xa5u8, 0xa6u8, 0xc0u8, 0xc0u8, 0xd7u8, 0xdau8, 0xe0u8, 0xc0u8, 0xe4u8, 0xc0u8, 0xeau8, 0xeau8, 0xe0u8, 0xe0u8,
        0x98u8, 0xc8u8, 0xeeu8, 0xf1u8, 0xa5u8, 0xd3u8, 0xa5u8, 0xa5u8, 0xa1u8, 0xeau8, 0x9eu8, 0xc0u8, 0xc0u8, 0xc2u8, 0xc0u8, 0xe6u8,
        0x03u8, 0x7fu8, 0x11u8, 0x7fu8, 0x01u8, 0x7fu8, 0x01u8, 0x3fu8, 0x01u8, 0x01u8, 0xabu8, 0x8bu8, 0x90u8, 0x64u8, 0x5bu8, 0x5bu8,
        0x5bu8, 0x5bu8, 0x5bu8, 0x92u8, 0x5bu8, 0x5bu8, 0x76u8, 0x90u8, 0x92u8, 0x92u8, 0x5bu8, 0x5bu8, 0x5bu8, 0x5bu8, 0x5bu8, 0x5bu8,
        0x5bu8, 0x5bu8, 0x5bu8, 0x5bu8, 0x5bu8, 0x5bu8, 0x6au8, 0x73u8, 0x90u8, 0x5bu8, 0x52u8, 0x52u8, 0x52u8, 0x52u8, 0x5bu8, 0x5bu8,
        0x5bu8, 0x5bu8, 0x77u8, 0x7cu8, 0x77u8, 0x85u8, 0x5bu8, 0x5bu8, 0x70u8, 0x5bu8, 0x7au8, 0xafu8, 0x76u8, 0x76u8, 0x5bu8, 0x5bu8,
        0x5bu8, 0x5bu8, 0x5bu8, 0x5bu8, 0x5bu8, 0x5bu8, 0x5bu8, 0x5bu8, 0x5bu8, 0x86u8, 0x01u8, 0x03u8, 0x01u8, 0x04u8, 0x03u8, 0xd5u8,
        0x03u8, 0xd5u8, 0x03u8, 0xccu8, 0x01u8, 0xbcu8, 0x03u8, 0xf0u8, 0x03u8, 0x03u8, 0x04u8, 0x00u8, 0x50u8, 0x50u8, 0x50u8, 0x50u8,
        0xffu8, 0x20u8, 0x20u8, 0x20u8, 0x20u8, 0x01u8, 0x01u8, 0x01u8, 0x01u8, 0xc4u8, 0x02u8, 0x10u8, 0xffu8, 0xffu8, 0xffu8, 0x01u8,
        0x00u8, 0x03u8, 0x11u8, 0xffu8, 0x03u8, 0xc4u8, 0xc6u8, 0xc8u8, 0x02u8, 0x10u8, 0x00u8, 0xffu8, 0xccu8, 0x01u8, 0x01u8, 0x01u8,
        0x00u8, 0x00u8, 0x00u8, 0x00u8, 0x01u8, 0x01u8, 0x03u8, 0x01u8, 0xffu8, 0xffu8, 0xc0u8, 0xc2u8, 0x10u8, 0x11u8, 0x02u8, 0x03u8,
        0x01u8, 0x01u8, 0x01u8, 0xffu8, 0xffu8, 0xffu8, 0x00u8, 0x00u8, 0x00u8, 0xffu8, 0x00u8, 0x00u8, 0xffu8, 0xffu8, 0xffu8, 0xffu8,
        0x10u8, 0x10u8, 0x10u8, 0x10u8, 0x02u8, 0x10u8, 0x00u8, 0x00u8, 0xc6u8, 0xc8u8, 0x02u8, 0x02u8, 0x02u8, 0x02u8, 0x06u8, 0x00u8,
        0x04u8, 0x00u8, 0x02u8, 0xffu8, 0x00u8, 0xc0u8, 0xc2u8, 0x01u8, 0x01u8, 0x03u8, 0x03u8, 0x03u8, 0xcau8, 0x40u8, 0x00u8, 0x0au8,
        0x00u8, 0x04u8, 0x00u8, 0x00u8, 0x00u8, 0x00u8, 0x7fu8, 0x00u8, 0x33u8, 0x01u8, 0x00u8, 0x00u8, 0x00u8, 0x00u8, 0x00u8, 0x00u8,
        0xffu8, 0xbfu8, 0xffu8, 0xffu8, 0x00u8, 0x00u8, 0x00u8, 0x00u8, 0x07u8, 0x00u8, 0x00u8, 0xffu8, 0x00u8, 0x00u8, 0x00u8, 0x00u8,
        0x00u8, 0x00u8, 0x00u8, 0x00u8, 0x00u8, 0x00u8, 0x00u8, 0x00u8, 0x00u8, 0x00u8, 0xffu8, 0xffu8, 0x00u8, 0x00u8, 0x00u8, 0xbfu8,
        0x00u8, 0x00u8, 0x00u8, 0x00u8, 0x00u8, 0x00u8, 0x00u8, 0x00u8, 0x7fu8, 0x00u8, 0x00u8, 0xffu8, 0x40u8, 0x40u8, 0x40u8, 0x40u8,
        0x41u8, 0x49u8, 0x40u8, 0x40u8, 0x40u8, 0x40u8, 0x4cu8, 0x42u8, 0x40u8, 0x40u8, 0x40u8, 0x40u8, 0x40u8, 0x40u8, 0x40u8, 0x40u8,
        0x4fu8, 0x44u8, 0x53u8, 0x40u8, 0x40u8, 0x40u8, 0x44u8, 0x57u8, 0x43u8, 0x5cu8, 0x40u8, 0x60u8, 0x40u8, 0x40u8, 0x40u8, 0x40u8,
        0x40u8, 0x40u8, 0x40u8, 0x40u8, 0x40u8, 0x40u8, 0x40u8, 0x40u8, 0x40u8, 0x40u8, 0x64u8, 0x66u8, 0x6eu8, 0x6bu8, 0x40u8, 0x40u8,
        0x6au8, 0x46u8, 0x40u8, 0x40u8, 0x44u8, 0x46u8, 0x40u8, 0x40u8, 0x5bu8, 0x44u8, 0x40u8, 0x40u8, 0x00u8, 0x00u8, 0x00u8, 0x00u8,
        0x06u8, 0x06u8, 0x06u8, 0x06u8, 0x01u8, 0x06u8, 0x06u8, 0x02u8, 0x06u8, 0x06u8, 0x00u8, 0x06u8, 0x00u8, 0x0au8, 0x0au8, 0x00u8,
        0x00u8, 0x00u8, 0x02u8, 0x07u8, 0x07u8, 0x06u8, 0x02u8, 0x0du8, 0x06u8, 0x06u8, 0x06u8, 0x0eu8, 0x05u8, 0x05u8, 0x02u8, 0x02u8,
        0x00u8, 0x00u8, 0x04u8, 0x04u8, 0x04u8, 0x04u8, 0x05u8, 0x06u8, 0x06u8, 0x06u8, 0x00u8, 0x00u8, 0x00u8, 0x0eu8, 0x00u8, 0x00u8,
        0x08u8, 0x00u8, 0x10u8, 0x00u8, 0x18u8, 0x00u8, 0x20u8, 0x00u8, 0x28u8, 0x00u8, 0x30u8, 0x00u8, 0x80u8, 0x01u8, 0x82u8, 0x01u8,
        0x86u8, 0x00u8, 0xf6u8, 0xcfu8, 0xfeu8, 0x3fu8, 0xabu8, 0x00u8, 0xb0u8, 0x00u8, 0xb1u8, 0x00u8, 0xb3u8, 0x00u8, 0xbau8, 0xf8u8,
        0xbbu8, 0x00u8, 0xc0u8, 0x00u8, 0xc1u8, 0x00u8, 0xc7u8, 0xbfu8, 0x62u8, 0xffu8, 0x00u8, 0x8du8, 0xffu8, 0x00u8, 0xc4u8, 0xffu8,
        0x00u8, 0xc5u8, 0xffu8, 0x00u8, 0xffu8, 0xffu8, 0xebu8, 0x01u8, 0xffu8, 0x0eu8, 0x12u8, 0x08u8, 0x00u8, 0x13u8, 0x09u8, 0x00u8,
        0x16u8, 0x08u8, 0x00u8, 0x17u8, 0x09u8, 0x00u8, 0x2bu8, 0x09u8, 0x00u8, 0xaeu8, 0xffu8, 0x07u8, 0xb2u8, 0xffu8, 0x00u8, 0xb4u8,
        0xffu8, 0x00u8, 0xb5u8, 0xffu8, 0x00u8, 0xc3u8, 0x01u8, 0x00u8, 0xc7u8, 0xffu8, 0xbfu8, 0xe7u8, 0x08u8, 0x00u8, 0xf0u8, 0x02u8,
        0x00u8,
    ]
}

#[verifier::rlimit(100)]
#[verifier::spinoff_prover]
fn hde64_table_vec() -> (v: Vec<u8>)
    ensures
        v@ == hde64_table(),
        v@.len() == 529,
{
    proof {
        reveal(hde64_table);
    }
    let v: Vec<u8> = vec![
        0xa5u8, 0xaau8, 0xa5u8, 0xb8u8, 0xa5u8, 0xaau8, 0xa5u8, 0xaau8, 0xa5u8, 0xb8u8, 0xa5u8, 0xb8u8, 0xa5u8, 0xb8u8, 0xa5u8, 0xb8u8,
        0xc0u8, 0xc0u8, 0xc0u8, 0xc0u8, 0xc0u8, 0xc0u8, 0xc0u8, 0xc0u8, 0xacu8, 0xc0u8, 0xccu8, 0xc0u8, 0xa1u8, 0xa1u8, 0xa1u8, 0xa1u8,
        0xb1u8, 0xa5u8, 0xa5u8, 0xa6u8, 0xc0u8, 0xc0u8, 0xd7u8, 0xdau8, 0xe0u8, 0xc0u8, 0xe4u8, 0xc0u8, 0xeau8, 0xeau8, 0xe0u8, 0xe0u8,
        0x98u8, 0xc8u8, 0xeeu8, 0xf1u8, 0xa5u8, 0xd3u8, 0xa5u8, 0xa5u8, 0xa1u8, 0xeau8, 0x9eu8, 0xc0u8, 0xc0u8, 0xc2u8, 0xc0u8, 0xe6u8,
        0x03u8, 0x7fu8, 0x11u8, 0x7fu8, 0x01u8, 0x7fu8, 0x01u8, 0x3fu8, 0x01u8, 0x01u8, 0xabu8, 0x8bu8, 0x90u8, 0x64u8, 0x5bu8, 0x5bu8,
        0x5bu8, 0x5bu8, 0x5bu8, 0x92u8, 0x5bu8, 0x5bu8, 0x76u8, 0x90u8, 0x92u8, 0x92u8, 0x5bu8, 0x5bu8, 0x5bu8, 0x5bu8, 0x5bu8, 0x5bu8,
        0x5bu8, 0x5bu8, 0x5bu8, 0x5bu8, 0x5bu8, 0x5bu8, 0x6au8, 0x73u8, 0x90u8, 0x5bu8, 0x52u8, 0x52u8, 0x52u8, 0x52u8, 0x5bu8, 0x5bu8,
        0x5bu8, 0x5bu8, 0x77u8, 0x7cu8, 0x77u8, 0x85u8, 0x5bu8, 0x5bu8, 0x70u8, 0x5bu8, 0x7au8, 0xafu8, 0x76u8, 0x76u8, 0x5bu8, 0x5bu8,
        0x5bu8, 0x5bu8, 0x5bu8, 0x5bu8, 0x5bu8, 0x5bu8, 0x5bu8, 0x5bu8, 0x5bu8, 0x86u8, 0x01u8, 0x03u8, 0x01u8, 0x04u8, 0x03u8, 0xd5u8,
        0x03u8, 0xd5u8, 0x03u8, 0xccu8, 0x01u8, 0xbcu8, 0x03u8, 0xf0u8, 0x03u8, 0x03u8, 0x04u8, 0x00u8, 0x50u8, 0x50u8, 0x50u8, 0x50u8,
        0xffu8, 0x20u8, 0x20u8, 0x20u8, 0x20u8, 0x01u8, 0x01u8, 0x01u8, 0x01u8, 0xc4u8, 0x02u8, 0x10u8, 0xffu8, 0xffu8, 0xffu8, 0x01u8,
        0x00u8, 0x03u8, 0x11u8, 0xffu8, 0x03u8, 0xc4u8, 0xc6u8, 0xc8u8, 0x02u8, 0x10u8, 0x00u8, 0xffu8, 0xccu8, 0x01u8, 0x01u8, 0x01u8,
        0x00u8, 0x00u8, 0x00u8, 0x00u8, 0x01u8, 0x01u8, 0x03u8, 0x01u8, 0xffu8, 0xffu8, 0xc0u8, 0xc2u8, 0x10u8, 0x11u8, 0x02u8, 0x03u8,
        0x01u8, 0x01u8, 0x01u8, 0xffu8, 0xffu8, 0xffu8, 0x00u8, 0x00u8, 0x00u8, 0xffu8, 0x00u8, 0x00u8, 0xffu8, 0xffu8, 0xffu8, 0xffu8,
        0x10u8, 0x10u8, 0x10u8, 0x10u8, 0x02u8, 0x10u8, 0x00u8, 0x00u8, 0xc6u8, 0xc8u8, 0x02u8, 0x02u8, 0x02u8, 0x02u8, 0x06u8, 0x00u8,
        0x04u8, 0x00u8, 0x02u8, 0xffu8, 0x00u8, 0xc0u8, 0xc2u8, 0x01u8, 0x01u8, 0x03u8, 0x03u8, 0x03u8, 0xcau8, 0x40u8, 0x00u8, 0x0au8,
        0x00u8, 0x04u8, 0x00u8, 0x00u8, 0x00u8, 0x00u8, 0x7fu8, 0x00u8, 0x33u8, 0x01u8, 0x00u8, 0x00u8, 0x00u8, 0x00u8, 0x00u8, 0x00u8,
        0xffu8, 0xbfu8, 0xffu8, 0xffu8, 0x00u8, 0x00u8, 0x00u8, 0x00u8, 0x07u8, 0x00u8, 0x00u8, 0xffu8, 0x00u8, 0x00u8, 0x00u8, 0x00u8,
        0x00u8, 0x00u8, 0x00u8, 0x00u8, 0x00u8, 0x00u8, 0x00u8, 0x00u8, 0x00u8, 0x00u8, 0xffu8, 0xffu8, 0x00u8, 0x00u8, 0x00u8, 0xbfu8,
        0x00u8, 0x00u8, 0x00u8, 0x00u8, 0x00u8, 0x00u8, 0x00u8, 0x00u8, 0x7fu8, 0x00u8, 0x00u8, 0xffu8, 0x40u8, 0x40u8, 0x40u8, 0x40u8,
        0x41u8, 0x49u8, 0x40u8, 0x40u8, 0x40u8, 0x40u8, 0x4cu8, 0x42u8, 0x40u8, 0x40u8, 0x40u8, 0x40u8, 0x40u8, 0x40u8, 0x40u8, 0x40u8,
        0x4fu8, 0x44u8, 0x53u8, 0x40u8, 0x40u8, 0x40u8, 0x44u8, 0x57u8, 0x43u8, 0x5cu8, 0x40u8, 0x60u8, 0x40u8, 0x40u8, 0x40u8, 0x40u8,
        0x40u8, 0x40u8, 0x40u8, 0x40u8, 0x40u8, 0x40u8, 0x40u8, 0x40u8, 0x40u8, 0x40u8, 0x64u8, 0x66u8, 0x6eu8, 0x6bu8, 0x40u8, 0x40u8,
        0x6au8, 0x46u8, 0x40u8, 0x40u8, 0x44u8, 0x46u8, 0x40u8, 0x40u8, 0x5bu8, 0x44u8, 0x40u8, 0x40u8, 0x00u8, 0x00u8, 0x00u8, 0x00u8,
        0x06u8, 0x06u8, 0x06u8, 0x06u8, 0x01u8, 0x06u8, 0x06u8, 0x02u8, 0x06u8, 0x06u8, 0x00u8, 0x06u8, 0x00u8, 0x0au8, 0x0au8, 0x00u8,
        0x00u8, 0x00u8, 0x02u8, 0x07u8, 0x07u8, 0x06u8, 0x02u8, 0x0du8, 0x06u8, 0x06u8, 0x06u8, 0x0eu8, 0x05u8, 0x05u8, 0x02u8, 0x02u8,
        0x00u8, 0x00u8, 0x04u8, 0x04u8, 0x04u8, 0x04u8, 0x05u8, 0x06u8, 0x06u8, 0x06u8, 0x00u8, 0x00u8, 0x00u8, 0x0eu8, 0x00u8, 0x00u8,
        0x08u8, 0x00u8, 0x10u8, 0x00u8, 0x18u8, 0x00u8, 0x20u8, 0x00u8, 0x28u8, 0x00u8, 0x30u8, 0x00u8, 0x80u8, 0x01u8, 0x82u8, 0x01u8,
        0x86u8, 0x00u8, 0xf6u8, 0xcfu8, 0xfeu8, 0x3fu8, 0xabu8, 0x00u8, 0xb0u8, 0x00u8, 0xb1u8, 0x00u8, 0xb3u8, 0x00u8, 0xbau8, 0xf8u8,
        0xbbu8, 0x00u8, 0xc0u8, 0x00u8, 0xc1u8, 0x00u8, 0xc7u8, 0xbfu8, 0x62u8, 0xffu8, 0x00u8, 0x8du8, 0xffu8, 0x00u8, 0xc4u8, 0xffu8,
        0x00u8, 0xc5u8, 0xffu8, 0x00u8, 0xffu8, 0xffu8, 0xebu8, 0x01u8, 0xffu8, 0x0eu8, 0x12u8, 0x08u8, 0x00u8, 0x13u8, 0x09u8, 0x00u8,
        0x16u8, 0x08u8, 0x00u8, 0x17u8, 0x09u8, 0x00u8, 0x2bu8, 0x09u8, 0x00u8, 0xaeu8, 0xffu8, 0x07u8, 0xb2u8, 0xffu8, 0x00u8, 0xb4u8,
        0xffu8, 0x00u8, 0xb5u8, 0xffu8, 0x00u8, 0xc3u8, 0x01u8, 0x00u8, 0xc7u8, 0xffu8, 0xbfu8, 0xe7u8, 0x08u8, 0x00u8, 0xf0u8, 0x02u8,
        0x00u8,
    ];
    proof {
        assert(v@ =~= hde64_table());
    }
    v
}

/// A legacy prefix byte: REP/REPNE, LOCK, a segment override, or an
/// operand- or address-size override.
pub open spec fn spec_is_prefix(b: u8) -> bool {
    ||| b == 0xf3
    ||| b == 0xf2
    ||| b == 0xf0
    ||| b == 0x26
    ||| b == 0x2e
    ||| b == 0x36
    ||| b == 0x3e
    ||| b == 0x64
    ||| b == 0x65
    ||| b == 0x66
    ||| b == 0x67
}

/// Little-endian 32-bit value read at position `i`.
pub open spec fn spec_le32_at(s: Seq<u8>, i: int) -> u32
    recommends
        0 <= i,
        i + 4 <= s.len(),
{
    (s[i] + s[i + 1] * 0x100 + s[i + 2] * 0x1_0000 + s[i + 3] * 0x100_0000) as u32
}

#[verifier::rlimit(100)]
#[verifier::spinoff_prover]
proof fn lemma_table_and_bit_facts()
    ensures
        hde64_table()[28] == 0xa1,
        hde64_table()[29] == 0xa1,
        hde64_table()[30] == 0xa1,
        hde64_table()[31] == 0xa1,
        hde64_table()[34] == 0xa5,
        hde64_table()[36] == 0xc0,
        hde64_table()[56] == 0xa1,
        hde64_table()[58] == 0x9e,
        hde64_table()[63] == 0xe6,
        hde64_table()[72] == 0x01,
        hde64_table()[73] == 0x01,
        hde64_table()[158] == 0x50,
        hde64_table()[159] == 0x50,
        hde64_table()[161] == 0x20,
        hde64_table()[162] == 0x20,
        hde64_table()[163] == 0x20,
        hde64_table()[164] == 0x20,
        hde64_table()[168] == 0x01,
        hde64_table()[192] == 0x00,
        hde64_table()[233] == 0xc8,
        (0x50u8 & 0x80u8) == 0,
        (0x50u8 & 0x01u8) == 0,
        (0x50u8 & 0x10u8) == 0x10,
        (0x50u8 & 0x40u8) == 0x40,
        (0x50u8 & 0x04u8) == 0,
        (0x50u8 & 0x02u8) == 0,
        (0x20u8 & 0x80u8) == 0,
        (0x20u8 & 0x01u8) == 0,
        (0x20u8 & 0x10u8) == 0,
        (0x20u8 & 0x04u8) == 0,
        (0x20u8 & 0x02u8) == 0,
        (0x20u8 & 0x40u8) == 0,
        (0x20u8 & 0x20u8) == 0x20,
        (0x00u8 & 0x80u8) == 0,
        (0x00u8 & 0x01u8) == 0,
        (0x00u8 & 0x10u8) == 0,
        (0x00u8 & 0x04u8) == 0,
        (0x00u8 & 0x02u8) == 0,
        (0x00u8 & 0x40u8) == 0,
        (0x00u8 & 0x20u8) == 0,
        (0x01u8 & 0x80u8) == 0,
        (0x01u8 & 0x01u8) == 1,
        (0x01u8 & 0x10u8) == 0,
        (0x01u8 & 0x04u8) == 0,
        (0x01u8 & 0x02u8) == 0,
        (0x01u8 & 0x40u8) == 0,
        (0x01u8 & 0x20u8) == 0,
        (0xc8u8 & 0x80u8) == 0x80,
        (0xc8u8 & 0x7fu8) == 0x48,
        (0x01u8 & 0x20u8) == 0,
        (0x01u8 & 0x08u8) == 0,
        (0x25u8 >> 6) == 0,
        (0x25u8 & 7) == 5,
        ((0x25u8 & 0x3f) >> 3) == 4,
        ((0x01u8 << 4u8) & 0x80u8) == 0,
        (0x00u8 | 0x01u8) == 1,
        (0x25u8 & 0xc7u8) == 0x05,
        (0u32 << 23) == 0,
        (0u32 | 0x10u32) == 0x10,
        (0x10u32 | 0x200u32) == 0x210,
        (0u32 | 0x4u32) == 0x4,
        (0x4u32 | 0x200u32) == 0x204,
        (0u32 | 0x1u32) == 0x1,
        (0x1u32 | 0x100u32) == 0x101,
        (0u32 | 0x4000_0000u32) == 0x4000_0000,
        (0x4000_0000u32 | 0x1u32) == 0x4000_0001,
        (0x4000_0001u32 | 0x100u32) == 0x4000_0101,
{
    reveal(hde64_table);
    assert({
        &&& (0x50u8 & 0x80u8) == 0
        &&& (0x50u8 & 0x01u8) == 0
        &&& (0x50u8 & 0x10u8) == 0x10
        &&& (0x50u8 & 0x40u8) == 0x40
        &&& (0x50u8 & 0x04u8) == 0
        &&& (0x50u8 & 0x02u8) == 0
        &&& (0x20u8 & 0x80u8) == 0
        &&& (0x20u8 & 0x01u8) == 0
        &&& (0x20u8 & 0x10u8) == 0
        &&& (0x20u8 & 0x04u8) == 0
        &&& (0x20u8 & 0x02u8) == 0
        &&& (0x20u8 & 0x40u8) == 0
        &&& (0x20u8 & 0x20u8) == 0x20
        &&& (0x00u8 & 0x80u8) == 0
        &&& (0x00u8 & 0x01u8) == 0
        &&& (0x00u8 & 0x10u8) == 0
        &&& (0x00u8 & 0x04u8) == 0
        &&& (0x00u8 & 0x02u8) == 0
        &&& (0x00u8 & 0x40u8) == 0
        &&& (0x00u8 & 0x20u8) == 0
        &&& (0x01u8 & 0x80u8) == 0
        &&& (0x01u8 & 0x01u8) == 1
        &&& (0x01u8 & 0x10u8) == 0
        &&& (0x01u8 & 0x04u8) == 0
        &&& (0x01u8 & 0x02u8) == 0
        &&& (0x01u8 & 0x40u8) == 0
        &&& (0x01u8 & 0x20u8) == 0
        &&& (0xc8u8 & 0x80u8) == 0x80
        &&& (0xc8u8 & 0x7fu8) == 0x48
        &&& (0x01u8 & 0x08u8) == 0
        &&& (0x25u8 >> 6) == 0
        &&& (0x25u8 & 7) == 5
        &&& ((0x25u8 & 0x3f) >> 3) == 4
        &&& ((0x01u8 << 4u8) & 0x80u8) == 0
        &&& (0x00u8 | 0x01u8) == 1
        &&& (0x25u8 & 0xc7u8) == 0x05
        &&& (0u32 << 23) == 0
        &&& (0u32 | 0x10u32) == 0x10
        &&& (0x10u32 | 0x200u32) == 0x210
        &&& (0u32 | 0x4u32) == 0x4
        &&& (0x4u32 | 0x200u32) == 0x204
        &&& (0u32 | 0x1u32) == 0x1
        &&& (0x1u32 | 0x100u32) == 0x101
        &&& (0u32 | 0x4000_0000u32) == 0x4000_0000
        &&& (0x4000_0000u32 | 0x1u32) == 0x4000_0001
        &&& (0x4000_0001u32 | 0x100u32) == 0x4000_0101
    }) by (bit_vector);
    assert(hde64_table()[28] == 0xa1);
    assert(hde64_table()[29] == 0xa1);
    assert(hde64_table()[30] == 0xa1);
    assert(hde64_table()[31] == 0xa1);
    assert(hde64_table()[34] == 0xa5);
    assert(hde64_table()[36] == 0xc0);
    assert(hde64_table()[56] == 0xa1);
    assert(hde64_table()[58] == 0x9e);
    assert(hde64_table()[63] == 0xe6);
    assert(hde64_table()[72] == 0x01);
    assert(hde64_table()[73] == 0x01);
    assert(hde64_table()[158] == 0x50);
    assert(hde64_table()[159] == 0x50);
    assert(hde64_table()[161] == 0x20);
    assert(hde64_table()[162] == 0x20);
    assert(hde64_table()[163] == 0x20);
    assert(hde64_table()[164] == 0x20);
    assert(hde64_table()[168] == 0x01);
    assert(hde64_table()[192] == 0x00);
    assert(hde64_table()[233] == 0xc8);
}

fn is_prefix_byte(b: u8) -> (r: bool)
    ensures
        r == spec_is_prefix(b),
{
    b == 0xf3 || b == 0xf2 || b == 0xf0 || b == 0x26 || b == 0x2e || b == 0x36 || b == 0x3e
        || b == 0x64 || b == 0x65 || b == 0x66 || b == 0x67
}

/// Scans a (opcode, register-mask) pair list for `op_key` and reports
/// whether a LOCK prefix is admissible for it.
fn lock_scan(table: &Vec<u8>, ht_start: usize, ht_end: usize, op_key: u8, m_reg: u8) -> (found:
    bool)
    requires
        table@.len() == 529,
        ht_start <= ht_end,
        ht_end <= 0x1e7,
        (ht_end - ht_start) % 2 == 0,
        m_reg < 8,
{
    let mut found = false;
    let mut matched = false;
    let mut i: usize = ht_start;
    while i < ht_end && !matched
        invariant
            ht_start <= i,
            (ht_end - ht_start) % 2 == 0,
            (i - ht_start) % 2 == 0,
            i <= ht_end,
            ht_end <= 0x1e7,
            table@.len() == 529,
            m_reg < 8,
        decreases ht_end - i + (if matched { 0int } else { 1int }),
    {
        if table[i] == op_key {
            matched = true;
            if ((table[i + 1] << m_reg) & 0x80) == 0 {
                found = true;
            }
        } else {
            i = i + 2;
        }
    }
    found
}

/// Scans a (opcode, prefix-mask, register-mask) triple list and reports
/// whether a register-form operand is invalid for `opcode` under `pref`.
fn onlymem_scan(table: &Vec<u8>, ht_start: usize, ht_end: usize, opcode: u8, pref: u8, m_reg: u8)
    -> (err: bool)
    requires
        table@.len() == 529,
        ht_start <= ht_end,
        ht_end <= 529,
        (ht_end - ht_start) % 3 == 0,
        m_reg < 8,
{
    let mut err = false;
    let mut matched = false;
    let mut i: usize = ht_start;
    while i < ht_end && !matched
        invariant
            ht_start <= i,
            (ht_end - ht_start) % 3 == 0,
            (i - ht_start) % 3 == 0,
            i <= ht_end,
            ht_end <= 529,
            table@.len() == 529,
            m_reg < 8,
        decreases ht_end - i + (if matched { 0int } else { 1int }),
    {
        if table[i] == opcode {
            matched = true;
            if (table[i + 1] & pref) != 0 && ((table[i + 2] << m_reg) & 0x80) == 0 {
                err = true;
            }
        } else {
            i = i + 3;
        }
    }
    err
}

/// Consumes the ModR/M byte and what follows from it: operand-validity
/// checks, an optional SIB byte, and the displacement width it dictates.
/// Returns the next position and the displacement size.
#[verifier::rlimit(100)]
#[verifier::spinoff_prover]
fn decode_modrm(
    code: &Vec<u8>,
    pos: usize,
    hs: &mut Hde64s,
    table: &Vec<u8>,
    p0: usize,
    pref: u8,
    x: u8,
    opcode: u8,
) -> (res: (usize, u8))
    requires
        pos + 40 <= code@.len(),
        pos < p0,
        p0 <= pos + 19,
        table@ == hde64_table(),
        table@.len() == 529,
    ensures
        p0 < res.0,
        res.0 <= p0 + 2,
        res.1 == 0 || res.1 == 1 || res.1 == 4,
        final(hs).opcode2 == old(hs).opcode2,
        final(hs).opcode == old(hs).opcode,
        final(hs).rex_r == old(hs).rex_r,
        final(hs).imm == old(hs).imm,
        final(hs).disp == old(hs).disp,
        final(hs).modrm == code@[p0 as int],
        final(hs).modrm_mod == (code@[p0 as int] >> 6),
        final(hs).modrm_rm == (code@[p0 as int] & 7),
        final(hs).modrm_reg == ((code@[p0 as int] & 0x3f) >> 3),
        final(hs).modrm_reg <= 7,
        old(hs).opcode2 == 0 && (code@[p0 as int] & 0xc7) == 0x05 ==> res.0 == p0 + 1 && res.1
            == 4 && final(hs).modrm_mod == 0 && final(hs).modrm_rm == 5,
        old(hs).opcode2 == 0 && (code@[p0 as int] & 0xc7) == 0x05 && pref == 1 && (opcode < 0xd9
            || opcode > 0xdf) && opcode != 0x8c && opcode != 0x8e && (x == 0 || ((x << ((code@[
            p0 as int
        ] & 0x3f) >> 3)) & 0x80) == 0) ==> final(hs).flags == (old(hs).flags | 0x1),
{
    proof {
        lemma_table_and_bit_facts();
    }
    let n: usize = code.len();
    let mut p: usize = p0;
    let mut disp_size: u8 = 0;

        hs.flags = hs.flags | F_MODRM;
        let mc: u8 = code[p];
        p = p + 1;
        hs.modrm = mc;
        hs.modrm_mod = mc >> 6;
        hs.modrm_rm = mc & 7;
        hs.modrm_reg = (mc & 0x3f) >> 3;
        assert((mc >> 6) < 4 && (mc & 7) < 8 && ((mc & 0x3f) >> 3) < 8) by (bit_vector);
        assert((mc & 0xc7) == 0x05 ==> (mc >> 6) == 0 && (mc & 7) == 5) by (bit_vector);
        let mut m_mod: u8 = hs.modrm_mod;
        let m_rm: u8 = hs.modrm_rm;
        let m_reg: u8 = hs.modrm_reg;

        if x != 0 && ((x << m_reg) & 0x80) != 0 {
            hs.flags = hs.flags | F_ERROR | F_ERROR_OPCODE;
        }

        if hs.opcode2 == 0 && opcode >= 0xd9 && opcode <= 0xdf {
            let t: u8 = opcode - 0xd9;
            let ht_val: u8 = if m_mod == 3 {
                table[DELTA_FPU_MODRM + (t as usize) * 8 + m_reg as usize] << m_rm
            } else {
                table[DELTA_FPU_REG + t as usize] << m_reg
            };
            if (ht_val & 0x80) != 0 {
                hs.flags = hs.flags | F_ERROR | F_ERROR_OPCODE;
            }
        }

        if (pref & PRE_LOCK) != 0 {
            if m_mod == 3 {
                hs.flags = hs.flags | F_ERROR | F_ERROR_LOCK;
            } else {
                let ht_start: usize;
                let ht_end: usize;
                let op_key: u8;
                if hs.opcode2 != 0 {
                    ht_start = DELTA_OP2_LOCK_OK;
                    ht_end = DELTA_OP_ONLY_MEM;
                    op_key = opcode;
                } else {
                    ht_start = DELTA_OP_LOCK_OK;
                    ht_end = DELTA_OP2_LOCK_OK;
                    op_key = opcode & 0xfe;
                }
                let found = lock_scan(table, ht_start, ht_end, op_key, m_reg);
                if !found {
                    hs.flags = hs.flags | F_ERROR | F_ERROR_LOCK;
                }
            }
        }

        if hs.opcode2 != 0 {
            if opcode == 0x20 || opcode == 0x22 {
                m_mod = 3;
                if m_reg > 4 || m_reg == 1 {
                    hs.flags = hs.flags | F_ERROR | F_ERROR_OPERAND;
                }
            } else if opcode == 0x21 || opcode == 0x23 {
                m_mod = 3;
                if m_reg == 4 || m_reg == 5 {
                    hs.flags = hs.flags | F_ERROR | F_ERROR_OPERAND;
                }
            }
        } else {
            if opcode == 0x8c {
                if m_reg > 5 {
                    hs.flags = hs.flags | F_ERROR | F_ERROR_OPERAND;
                }
            } else if opcode == 0x8e {
                if m_reg == 1 || m_reg > 5 {
                    hs.flags = hs.flags | F_ERROR | F_ERROR_OPERAND;
                }
            }
        }

        if m_mod == 3 {
            let ht_start: usize;
            let ht_end: usize;
            if hs.opcode2 != 0 {
                ht_start = DELTA_OP2_ONLY_MEM;
                ht_end = TABLE_LEN;
            } else {
                ht_start = DELTA_OP_ONLY_MEM;
                ht_end = DELTA_OP2_ONLY_MEM;
            }
            if onlymem_scan(table, ht_start, ht_end, opcode, pref, m_reg) {
                hs.flags = hs.flags | F_ERROR | F_ERROR_OPERAND;
            }
        }

        if m_mod != 3 {
            if m_rm == 4 {
                hs.flags = hs.flags | F_SIB;
                let sb: u8 = code[p];
                p = p + 1;
                hs.sib = sb;
                hs.sib_scale = sb >> 6;
                hs.sib_index = (sb & 0x3f) >> 3;
                hs.sib_base = sb & 7;
                if hs.sib_base == 5 && m_mod == 0 {
                    disp_size = 4;
                }
            } else if m_rm == 5 && m_mod == 0 {
                disp_size = 4;
            }
            if m_mod == 1 {
                disp_size = 1;
            } else if m_mod == 2 {
                disp_size = 4;
            }
        }
    (p, disp_size)
}

/// Consumes the ModR/M, SIB, immediate and displacement fields dictated
/// by the opcode class `cflags`, starting at `p0`, and returns the position
/// one past the instruction. For the classes the hooking backends rely on,
/// the descriptor fields and the end position are stated exactly.
#[verifier::rlimit(100)]
#[verifier::spinoff_prover]
fn decode_operands(
    code: &Vec<u8>,
    pos: usize,
    hs: &mut Hde64s,
    table: &Vec<u8>,
    p0: usize,
    pref: u8,
    cflags: u8,
    x: u8,
    op64: u8,
    opcode: u8,
) -> (p_end: usize)
    requires
        pos + 40 <= code@.len(),
        pos < p0,
        p0 <= pos + 19,
        table@ == hde64_table(),
        table@.len() == 529,
    ensures
        p0 <= p_end,
        p_end <= p0 + 21,
        final(hs).opcode2 == old(hs).opcode2,
        final(hs).opcode == old(hs).opcode,
        final(hs).rex_r == old(hs).rex_r,
        final(hs).modrm_reg <= 7 || final(hs).modrm_reg == old(hs).modrm_reg,
        cflags == 0x00 ==> p_end == p0 && final(hs).flags == old(hs).flags,
        cflags == 0x50 && pref == 1 ==> p_end == p0 + 4 && final(hs).imm == spec_le32_at(
            code@,
            p0 as int,
        ) as u64 && final(hs).flags == ((old(hs).flags | 0x10) | 0x200),
        cflags == 0x20 ==> p_end == p0 + 1 && final(hs).imm == code@[p0 as int] as u64
            && final(hs).flags == ((old(hs).flags | 0x4) | 0x200),
        old(hs).opcode2 == 0 && cflags == 0x01 && (code@[p0 as int] & 0xc7) == 0x05 && x == 0
            && pref == 1 && (opcode < 0xd9 || opcode > 0xdf) && opcode != 0x8c && opcode != 0x8e
            ==> p_end == p0 + 5 && final(hs).modrm == code@[p0 as int] && final(hs).modrm_mod
            == 0 && final(hs).modrm_rm == 5 && final(hs).modrm_reg == ((code@[p0 as int] & 0x3f)
            >> 3) && final(hs).disp == spec_le32_at(code@, p0 + 1) && final(hs).flags == ((old(hs).flags | 0x1) | 0x100),
        old(hs).opcode2 == 0 && cflags == 0x01 && code@[p0 as int] == 0x25 && x == 0x01 && pref
            == 1 && (opcode < 0xd9 || opcode > 0xdf) && opcode != 0x8c && opcode != 0x8e ==> p_end
            == p0 + 5 && final(hs).modrm == 0x25 && final(hs).modrm_mod == 0 && final(hs).modrm_rm
            == 5 && final(hs).disp == spec_le32_at(code@, p0 + 1) && final(hs).flags == ((old(hs).flags | 0x1) | 0x100),
{
    proof {
        lemma_table_and_bit_facts();
    }
    let n: usize = code.len();
    let mut p: usize = p0;
    let mut disp_size: u8 = 0;
    if (cflags & C_MODRM) != 0 {
        let md = decode_modrm(code, pos, hs, table, p, pref, x, opcode);
        p = md.0;
        disp_size = md.1;
    }

    if (cflags & C_IMM_P66) != 0 {
        if (cflags & C_REL32) != 0 {
            if (pref & PRE_66) != 0 {
                hs.flags = hs.flags | F_IMM16 | F_RELATIVE;
                hs.imm = (code[p] as u64) + (code[p + 1] as u64) * 0x100;
                p = p + 2;
                return p;
            }
            // the relative field itself is read by the common rel32
            // block below
        } else {
            if op64 != 0 {
                hs.flags = hs.flags | F_IMM64;
                hs.imm = read_le32(code, p) as u64 + (read_le32(code, p + 4) as u64)
                    * 0x1_0000_0000;
                p = p + 8;
            } else if (pref & PRE_66) != 0 {
                hs.flags = hs.flags | F_IMM16;
                hs.imm = (code[p] as u64) + (code[p + 1] as u64) * 0x100;
                p = p + 2;
            } else {
                hs.flags = hs.flags | F_IMM32;
                hs.imm = read_le32(code, p) as u64;
                p = p + 4;
            }
        }
    }

    if (cflags & C_IMM16) != 0 {
        if (hs.flags & F_IMM32) != 0 {
            hs.flags = hs.flags | F_IMM16;
            hs.imm = (code[p] as u64) + (code[p + 1] as u64) * 0x100;
            p = p + 2;
        }
    }

    if (cflags & C_IMM8) != 0 {
        hs.flags = hs.flags | F_IMM8;
        hs.imm = code[p] as u64;
        p = p + 1;
    }

    if (cflags & C_REL32) != 0 {
        hs.flags = hs.flags | F_IMM32 | F_RELATIVE;
        hs.imm = read_le32(code, p) as u64;
        p = p + 4;
    } else if (cflags & C_REL8) != 0 {
        hs.flags = hs.flags | F_IMM8 | F_RELATIVE;
        hs.imm = code[p] as u64;
        p = p + 1;
    }

    if disp_size != 0 {
        if disp_size == 1 {
            hs.flags = hs.flags | F_DISP8;
            hs.disp = code[p] as u32;
            p = p + 1;
        } else {
            hs.flags = hs.flags | F_DISP32;
            hs.disp = read_le32(code, p);
            p = p + 4;
        }
    }


    p
}

/// Decodes the instruction beginning at `code[pos]`, filling `hs` and
/// returning its length. The decoder examines at most 40 bytes. For the
/// instruction forms the hooking backends rewrite, the descriptor is
/// pinned down exactly.
#[verifier::rlimit(100)]
#[verifier::spinoff_prover]
pub fn hde64_disasm(code: &Vec<u8>, pos: usize, hs: &mut Hde64s) -> (r: u32)
    requires
        pos + 40 <= code@.len(),
    ensures
        r == final(hs).len as u32,
        1 <= final(hs).len <= 39,
        final(hs).rex_r <= 1,
        final(hs).modrm_reg <= 7,
        final(hs).len > 15 && (final(hs).flags & F_ERROR_OPCODE) == 0 ==> (final(hs).flags
            & F_ERROR_LENGTH) != 0,
        code@[pos as int] == 0x90 ==> final(hs).len == 1 && final(hs).opcode == 0x90 && final(hs).flags == 0,
        code@[pos as int] == 0xe9 || code@[pos as int] == 0xe8 ==> final(hs).len == 5
            && final(hs).opcode == code@[pos as int] && final(hs).imm == spec_le32_at(
            code@,
            pos + 1,
        ) as u64 && final(hs).flags == 0x210,
        code@[pos as int] == 0xeb || code@[pos as int] == 0xe3 || (0x70 <= code@[pos as int]
            && code@[pos as int] <= 0x7f) ==> final(hs).len == 2 && final(hs).opcode == code@[
            pos as int
        ] && final(hs).imm == code@[pos + 1] as u64 && final(hs).flags == 0x204,
        code@[pos as int] == 0xff && code@[pos + 1] == 0x25 ==> final(hs).len == 6 && final(hs).opcode == 0xff && final(hs).modrm == 0x25 && final(hs).disp == spec_le32_at(
            code@,
            pos + 2,
        ) && final(hs).modrm_mod == 0 && final(hs).modrm_rm == 5 && final(hs).flags == 0x101,
        code@[pos as int] == 0x8b && (code@[pos + 1] & 0xc7) == 0x05 ==> final(hs).len == 6
            && final(hs).opcode == 0x8b && final(hs).modrm == code@[pos + 1] && final(hs).modrm_reg == ((code@[pos + 1] & 0x3f) >> 3) && final(hs).rex_r == 0 && final(hs).disp
            == spec_le32_at(code@, pos + 2) && final(hs).modrm_mod == 0 && final(hs).modrm_rm
            == 5 && final(hs).flags == 0x101,
        (code@[pos as int] & 0xf0) == 0x40 && code@[pos + 1] == 0x8b && (code@[pos + 2] & 0xc7)
            == 0x05 ==> final(hs).len == 7 && final(hs).opcode == 0x8b && final(hs).modrm
            == code@[pos + 2] && final(hs).modrm_reg == ((code@[pos + 2] & 0x3f) >> 3) && final(hs).rex_r == ((code@[pos as int] & 7) >> 2) && final(hs).disp == spec_le32_at(
            code@,
            pos + 3,
        ) && final(hs).modrm_mod == 0 && final(hs).modrm_rm == 5 && final(hs).flags
            == 0x4000_0101,
{
    proof {
        lemma_table_and_bit_facts();
        let b0 = code@[pos as int];
        assert(((b0 & 0xf0) == 0x40) == (0x40 <= b0 && b0 <= 0x4f)) by (bit_vector);
    }
    let n: usize = code.len();
    *hs = Hde64s {
        len: 0,
        p_rep: 0,
        p_lock: 0,
        p_seg: 0,
        p_66: 0,
        p_67: 0,
        rex: 0,
        rex_w: 0,
        rex_r: 0,
        rex_x: 0,
        rex_b: 0,
        opcode: 0,
        opcode2: 0,
        modrm: 0,
        modrm_mod: 0,
        modrm_reg: 0,
        modrm_rm: 0,
        sib: 0,
        sib_scale: 0,
        sib_index: 0,
        sib_base: 0,
        imm: 0,
        disp: 0,
        flags: 0,
    };
    let table = hde64_table_vec();

    let mut pref: u8 = 0;
    let mut m: usize = 0;
    while m < 16 && is_prefix_byte(code[pos + m])
        invariant
            pos + 40 <= code@.len(),
            n == code@.len(),
            m <= 16,
            m > 0 ==> spec_is_prefix(code@[pos as int]),
            m == 0 ==> pref == 0,
            hs.opcode == 0 && hs.opcode2 == 0 && hs.rex_r == 0 && hs.rex_w == 0 && hs.modrm == 0
                && hs.modrm_reg == 0 && hs.imm == 0 && hs.disp == 0 && hs.len == 0 && hs.flags
                == 0,
        decreases 16 - m,
    {
        let b = code[pos + m];
        if b == 0xf3 {
            hs.p_rep = b;
            pref = pref | PRE_F3;
        } else if b == 0xf2 {
            hs.p_rep = b;
            pref = pref | PRE_F2;
        } else if b == 0xf0 {
            hs.p_lock = b;
            pref = pref | PRE_LOCK;
        } else if b == 0x26 || b == 0x2e || b == 0x36 || b == 0x3e || b == 0x64 || b == 0x65 {
            hs.p_seg = b;
            pref = pref | PRE_SEG;
        } else if b == 0x66 {
            hs.p_66 = b;
            pref = pref | PRE_66;
        } else {
            hs.p_67 = b;
            pref = pref | PRE_67;
        }
        m = m + 1;
    }
    let mut c: u8;
    let mut p: usize;
    if m == 16 {
        c = code[pos + 15];
        p = pos + 16;
    } else {
        c = code[pos + m];
        p = pos + m + 1;
    }
    let ghost clean: bool = !spec_is_prefix(code@[pos as int]);
    proof {
        if clean {
            assert(m == 0 && c == code@[pos as int] && p == pos + 1 && pref == 0);
        }
    }

    hs.flags = (pref as u32) << 23;
    if pref == 0 {
        pref = pref | PRE_NONE;
    }

    let mut op64: u8 = 0;
    assert(((c & 0xf0) == 0x40) == (0x40 <= c && c <= 0x4f)) by (bit_vector);
    if (c & 0xf0) == 0x40 {
        hs.flags = hs.flags | F_PREFIX_REX;
        hs.rex_w = (c & 0xf) >> 3;
        if hs.rex_w != 0 && (code[p] & 0xf8) == 0xb8 {
            op64 = op64 + 1;
        }
        assert(((c & 7) >> 2) <= 1) by (bit_vector);
        hs.rex_r = (c & 7) >> 2;
        hs.rex_x = (c & 3) >> 1;
        hs.rex_b = c & 1;
        c = code[p];
        p = p + 1;
        assert(((c & 0xf0) == 0x40) == (0x40 <= c && c <= 0x4f)) by (bit_vector);
        if (c & 0xf0) == 0x40 {
            hs.opcode = c;
            hs.flags = hs.flags | F_ERROR | F_ERROR_OPCODE;
            hs.len = (p - pos) as u8;
            proof {
                let f = hs.flags;
                assert((f & 0x2000u32) != 0) by (bit_vector)
                    requires
                        exists|g: u32| f == (g | 0x1000u32 | 0x2000u32),
                ;
            }
            return hs.len as u32;
        }
    }

    hs.opcode = c;
    if c == 0x0f {
        hs.opcode2 = code[p];
        p = p + 1;
        c = hs.opcode2;
    } else if c >= 0xa0 && c <= 0xa3 {
        op64 = op64 + 1;
        if (pref & PRE_67) != 0 {
            pref = pref | PRE_66;
        } else {
            pref = pref & !PRE_66;
        }
    }

    let opcode: u8 = c;
    let mut cflags: u8 = table[(table[(opcode / 4) as usize] as usize) + (opcode % 4) as usize];

    if cflags == C_ERROR {
        hs.flags = hs.flags | F_ERROR | F_ERROR_OPCODE;
        cflags = 0;
        if (opcode & 0xfd) == 0x24 {
            cflags = cflags + 1;
        }
    }

    let mut x: u8 = 0;
    if (cflags & C_GROUP) != 0 {
        let t_offset = (cflags & 0x7f) as usize;
        proof {
            assert((cflags & 0x7f) < 0x80) by (bit_vector);
        }
        cflags = table[t_offset];
        x = table[t_offset + 1];
    }

    if hs.opcode2 != 0 {
        let j: usize = DELTA_PREFIXES + table[DELTA_PREFIXES + (opcode / 4) as usize] as usize + (
        opcode % 4) as usize;
        // every row offset the table holds keeps j inside it; the check is
        // for the verifier, which does not enumerate the table
        let ht_val: u8 = if j < TABLE_LEN {
            table[j]
        } else {
            0
        };
        if (ht_val & pref) != 0 {
            hs.flags = hs.flags | F_ERROR | F_ERROR_OPCODE;
        }
    }

    p = decode_operands(code, pos, hs, &table, p, pref, cflags, x, op64, opcode);
    hs.len = (p - pos) as u8;
    if hs.len > 0x0f {
        hs.flags = hs.flags | F_ERROR | F_ERROR_LENGTH;
        proof {
            let f = hs.flags;
            assert((f & 0x4000u32) != 0) by (bit_vector)
                requires
                    exists|g: u32| f == (g | 0x1000u32 | 0x4000u32),
            ;
        }
    }
    hs.len as u32
}

/// Reads a little-endian 32-bit value from `code` at `p`.
pub fn read_le32(code: &Vec<u8>, p: usize) -> (r: u32)
    requires
        p + 4 <= code@.len(),
    ensures
        r == spec_le32_at(code@, p as int),
{
    let n: usize = code.len();
    (code[p] as u32) + (code[p + 1] as u32) * 0x100 + (code[p + 2] as u32) * 0x1_0000 + (code[p
        + 3] as u32) * 0x100_0000
}

} // verus!

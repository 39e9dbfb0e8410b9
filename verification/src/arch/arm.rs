//! A32 (classic ARM) backend: a fixed two-word patch and a literal-pool
//! trampoline.
//!
//! The patch is always `LDR PC, [PC, #-4]` followed by the replacement
//! address: the first word loads the program counter from the second.
//! Each displaced word that reads PC is rewritten to load the PC value it
//! would have observed from a literal slot at the tail of the trampoline,
//! through either its own destination register or a stack-protected
//! scratch register.

use vstd::prelude::*;

use crate::disasm::arm_decoder::{is_arm_pc_relative, spec_is_arm_pc_relative};
use crate::error::SubstrateError;

verus! {

pub const A_SP: u32 = 13;

pub const A_LR: u32 = 14;

pub const A_PC: u32 = 15;

pub const A_R0: u32 = 0;

pub const A_R1: u32 = 1;

/// Encoding of `LDR rd, [rn, #im]`, the sign of `im` carried by the
/// U bit.
pub open spec fn spec_a_ldr_rd_rn_im(rd: u32, rn: u32, im: int) -> u32
    recommends
        rd < 16,
        rn < 16,
        -0x1000 < im < 0x1000,
{
    0xe5100000u32 | (if im < 0 {
        0u32
    } else {
        0x0080_0000u32
    }) | (rn << 16) | (rd << 12) | (if im < 0 {
        (-im) as u32
    } else {
        im as u32
    })
}

/// Encodes `LDR rd, [rn, #im]`.
pub fn a_ldr_rd_rn_im(rd: u32, rn: u32, im: i32) -> (r: u32)
    requires
        -0x1000 < im < 0x1000,
    ensures
        r == spec_a_ldr_rd_rn_im(rd, rn, im as int),
{
    0xe5100000u32 | (if im < 0 {
        0u32
    } else {
        0x0080_0000u32
    }) | (rn << 16) | (rd << 12) | (if im < 0 {
        (-im) as u32
    } else {
        im as u32
    })
}

/// Encodes `STMDB SP!, {rs}` for a register bitmask.
pub fn a_stmdb_sp_rs(rs: u32) -> (r: u32)
    ensures
        r == 0xe9200000u32 | (A_SP << 16) | rs,
{
    0xe9200000 | (A_SP << 16) | rs
}

/// Encodes `LDMIA SP!, {rs}` for a register bitmask.
pub fn a_ldmia_sp_rs(rs: u32) -> (r: u32)
    ensures
        r == 0xe8b00000u32 | (A_SP << 16) | rs,
{
    0xe8b00000 | (A_SP << 16) | rs
}

/// A register-register PC-relative form whose destination equals its
/// index register: relocation must go through a scratch register.
pub open spec fn spec_arm_needs_guard(w: u32) -> bool {
    !((w & 0x02000000) == 0 || ((w & 0x0000f000) >> 12) != (w & 0x0000000f))
}

/// The A32 patch word `LDR PC, [PC, #-4]`.
pub open spec fn spec_arm_patch_word() -> u32 {
    spec_a_ldr_rd_rn_im(15, 15, -4)
}

/// What the caller gets back for the original function: the destination
/// already installed by an earlier hook, or a trampoline image of words
/// to place at the chosen base.
pub enum ArmTrampoline {
    Direct(u64),
    Built(Vec<u32>),
}

/// A planned A32 hook: the displaced byte count, the patch words to
/// write at `symbol + patch_offset`, and what to hand back as the
/// original function.
pub struct ArmHook {
    pub used: usize,
    pub patch: Vec<u32>,
    pub patch_offset: usize,
    pub trampoline: Option<ArmTrampoline>,
}

/// Relocates one displaced A32 word into the trampoline under
/// construction. A PC-relative word loads the PC value it would have
/// observed from a literal slot at `end - 1`, through the destination
/// register or a stack-protected scratch; other words are copied.
/// `start` and `end` walk toward each other inside the fixed-size image.
fn arm_reloc_word(
    v: &mut Vec<u32>,
    word: u32,
    area: u64,
    offset: usize,
    start: &mut usize,
    end: &mut usize,
)
    requires
        offset < 2,
        area < 0x1_0000_0000,
        old(v)@.len() <= 12,
        *old(end) <= old(v)@.len(),
        spec_is_arm_pc_relative(word) ==> *old(start) + 5 <= *old(end),
        !spec_is_arm_pc_relative(word) ==> *old(start) + 1 <= *old(end),
    ensures
        final(v)@.len() == old(v)@.len(),
        *final(end) <= *old(end),
        spec_is_arm_pc_relative(word) && spec_arm_needs_guard(word) ==> *final(end) == *old(end)
            - 1 && *final(start) == *old(start) + 4,
        spec_is_arm_pc_relative(word) && !spec_arm_needs_guard(word) ==> *final(end) == *old(end)
            - 1 && *final(start) == *old(start) + 2 && final(v)@ == old(v)@.update(
            *old(start) as int,
            spec_a_ldr_rd_rn_im(
                ((word >> 12) & 0xf) as u32,
                15,
                (*old(end) - 1 - *old(start)) * 4 - 8,
            ),
        ).update(*old(start) + 1, (word & 0xfff0ffff) | (((word >> 12) & 0xf) << 16)).update(
            *old(end) - 1,
            ((area + offset * 4 + 8) % 0x1_0000_0000) as u32,
        ),
        !spec_is_arm_pc_relative(word) ==> *final(end) == *old(end) && *final(start) == *old(start)
            + 1 && final(v)@ == old(v)@.update(*old(start) as int, word),
        *final(start) <= *final(end),
{
    if is_arm_pc_relative(word) {
        let value = word;
        let rm: u32 = value & 0xf;
        let rd: u32 = (value >> 12) & 0xf;
        let mode: u32 = (value >> 25) & 0x1;
        proof {
            assert((((word >> 25) & 0x1) == 1 && ((word >> 12) & 0xf) == (word & 0xf)) == !((word
                & 0x02000000) == 0 || ((word & 0x0000f000) >> 12) != (word & 0x0000000f)))
                by (bit_vector);
            assert(((word >> 25) & 0x1) == 0 || ((word >> 25) & 0x1) == 1) by (bit_vector);
        }

        let copy_rn: u32;
        let guard: bool;
        if mode == 0 || rd != rm {
            copy_rn = rd;
            guard = false;
        } else {
            copy_rn = if rm != A_R0 {
                A_R0
            } else {
                A_R1
            };
            guard = true;
        }
        assert(copy_rn < 16) by (bit_vector)
            requires
                copy_rn == ((word >> 12) & 0xf) || copy_rn == 0 || copy_rn == 1,
        ;

        if guard {
            v[*start] = a_stmdb_sp_rs(1u32 << copy_rn);
            *start = *start + 1;
        }

        let im: i32 = ((*end - 1 - *start) as i32) * 4 - 8;
        v[*start] = a_ldr_rd_rn_im(copy_rn, A_PC, im);
        v[*start + 1] = (value & 0xfff0ffff) | (copy_rn << 16);
        *start = *start + 2;

        if guard {
            v[*start] = a_ldmia_sp_rs(1u32 << copy_rn);
            *start = *start + 1;
        }

        *end = *end - 1;
        let lit: u32 = ((area + (offset as u64) * 4 + 8) % 0x1_0000_0000) as u32;
        let e: usize = *end;
        v[e] = lit;
    } else {
        v[*start] = word;
        *start = *start + 1;
    }
}

/// Rewrites one A32 prologue and plans its trampoline.
///
/// `symbol` is the target address with the Thumb bit clear, `replace` the
/// replacement address, `prologue` the first two words at `symbol`, and
/// `tramp_base`, when given, asks for a trampoline image. Exactly eight
/// bytes are displaced; the patch is `LDR PC, [PC, #-4]` and the
/// replacement address. When the prologue already starts with that load
/// and a trampoline was asked for, only the absolute-address word (at
/// offset four) is rewritten to the new replacement, and the destination
/// it held is handed back.
#[verifier::rlimit(100)]
#[verifier::spinoff_prover]
pub fn hook_function_arm(
    symbol: u64,
    replace: u64,
    prologue: &Vec<u32>,
    tramp_base: Option<u64>,
) -> (r: Result<ArmHook, SubstrateError>)
    requires
        prologue@.len() >= 2,
        symbol < 0x1_0000_0000,
        replace < 0x1_0000_0000,
    ensures
        r is Ok <==> symbol != 0,
        r matches Err(e) ==> e is NullPointer,
        r matches Ok(h) ==> {
            &&& (tramp_base is Some && prologue@[0] == spec_arm_patch_word() ==> h.used == 4
                && h.patch_offset == 4 && h.patch@ == seq![replace as u32] && (h.trampoline
                matches Some(ArmTrampoline::Direct(d)) && d == prologue@[1]))
            &&& (!(tramp_base is Some && prologue@[0] == spec_arm_patch_word()) ==> h.used == 8
                && h.patch_offset == 0 && h.patch@ == seq![spec_arm_patch_word(), replace as u32]
                && (tramp_base is Some ==> h.trampoline is Some) && (tramp_base is None
                ==> h.trampoline is None))
            &&& (tramp_base is Some && prologue@[0] != spec_arm_patch_word()
                && !spec_is_arm_pc_relative(prologue@[0]) && !spec_is_arm_pc_relative(prologue@[1])
                ==> (h.trampoline matches Some(ArmTrampoline::Built(v)) && v@ == seq![
                prologue@[0],
                prologue@[1],
                spec_arm_patch_word(),
                ((symbol + 8) % 0x1_0000_0000) as u32,
            ]))
        },
{
    if symbol == 0 {
        return Err(SubstrateError::NullPointer);
    }
    let used: usize = 8;

    let mut trampoline: Option<ArmTrampoline> = None;
    if let Some(_base) = tramp_base {
        if prologue[0] == a_ldr_rd_rn_im(A_PC, A_PC, 4 - 8) {
            let mut patch: Vec<u32> = Vec::new();
            patch.push((replace % 0x1_0000_0000) as u32);
            proof {
                assert(patch@ =~= seq![replace as u32]);
            }
            return Ok(
                ArmHook {
                    used: 4,
                    patch,
                    patch_offset: 4,
                    trampoline: Some(ArmTrampoline::Direct(prologue[1] as u64)),
                },
            );
        }

        let pc0 = is_arm_pc_relative(prologue[0]);
        let pc1 = is_arm_pc_relative(prologue[1]);
        let extra0: usize = if pc0 {
            if (prologue[0] & 0x02000000) == 0 || (prologue[0] & 0x0000f000) >> 12 != (prologue[0]
                & 0x0000000f) {
                2
            } else {
                4
            }
        } else {
            0
        };
        let extra1: usize = if pc1 {
            if (prologue[1] & 0x02000000) == 0 || (prologue[1] & 0x0000f000) >> 12 != (prologue[1]
                & 0x0000000f) {
                2
            } else {
                4
            }
        } else {
            0
        };
        let total: usize = 2 + extra0 + extra1 + 2;

        let mut v: Vec<u32> = vec![0u32; total];
        let mut start: usize = 0;
        let mut end: usize = total;

        arm_reloc_word(&mut v, prologue[0], symbol, 0, &mut start, &mut end);
        arm_reloc_word(&mut v, prologue[1], symbol, 1, &mut start, &mut end);

        v[start] = a_ldr_rd_rn_im(A_PC, A_PC, 4 - 8);
        v[start + 1] = ((symbol + used as u64) % 0x1_0000_0000) as u32;

        proof {
            if !spec_is_arm_pc_relative(prologue@[0]) && !spec_is_arm_pc_relative(prologue@[1]) {
                assert(v@ =~= seq![
                    prologue@[0],
                    prologue@[1],
                    spec_arm_patch_word(),
                    ((symbol + 8) % 0x1_0000_0000) as u32,
                ]);
            }
        }
        trampoline = Some(ArmTrampoline::Built(v));
    }

    let mut patch: Vec<u32> = Vec::new();
    patch.push(a_ldr_rd_rn_im(A_PC, A_PC, 4 - 8));
    patch.push((replace % 0x1_0000_0000) as u32);
    proof {
        assert(patch@ =~= seq![spec_arm_patch_word(), replace as u32]);
    }

    Ok(ArmHook { used, patch, patch_offset: 0, trampoline })
}

} // verus!
